//! Capability dispatcher: routes each typed request to exactly one
//! host capability and wraps the result in the response envelope.
//!
//! Malformed request fields are rejected as `DecodingError` before any
//! capability is touched.  Every mutating kind is applied at most once;
//! a failure never leaves the dispatcher unusable for the next request.

use vstd::prelude::*;
use vstd::string::StringSliceAdditionalSpecFns;

use crate::addr::{addr_canonicalize, addr_humanize, addr_validate, canon_of, human_of,
    valid_canon, valid_human};
use crate::crypto;
use crate::crypto::{all_len, batch_counts_ok, vec_views, ed25519_verifies, secp256k1_checked,
    secp256k1_recovered, secp_pubkey_shape};
use crate::engine::{bound_view, scan_seq, Engine, Order, Step};
use crate::envelope::{Fault, Outcome, Payload};
use crate::hexdata::{hex_decode, hex_decoded, hex_wf};
use crate::msg::{ExecuteMsg, InstantiateMsg, QueryMsg, TestAddrCanonicalizeResponse,
    TestAddrHumanizeResponse, TestAddrValidateResponse, TestDbReadResponse,
    TestDebugQueryResponse, TestEd25519BatchVerifyResponse, TestEd25519VerifyResponse,
    TestQueryChainResponse, TestSecp256k1RecoverPubkeyResponse, TestSecp256k1VerifyResponse};
use crate::store::{remove_effect, store_has, store_read, write_effect, KvStore};

verus! {

/// The bytes a string's characters encode to.
pub open spec fn str_bytes(s: Seq<char>) -> Seq<u8> {
    vstd::utf8::encode_utf8(s)
}

/// The capability set behind the dispatcher: the host-owned store, the
/// iteration engine over it, the debug sink's log, and the chain-query
/// relay's queued responses (an empty queue echoes the request).
pub struct Host {
    pub store: KvStore,
    pub engine: Engine,
    pub debug_log: Vec<Vec<u8>>,
    pub chain_responses: Vec<Vec<u8>>,
}

impl Host {
    /// The host invariant: the store is sorted and every cursor is
    /// within its snapshot.
    pub open spec fn wf(self) -> bool {
        &&& self.store.wf()
        &&& self.engine.wf()
    }
}

/// Set up a fresh host: empty store, no scans, empty logs.
pub fn instantiate(_msg: InstantiateMsg) -> (h: Host)
    ensures
        h.wf(),
        h.store@ =~= Seq::<(Seq<u8>, Seq<u8>)>::empty(),
        h.engine.cursors@.len() == 0,
        h.debug_log@.len() == 0,
        h.chain_responses@.len() == 0,
{
    Host {
        store: KvStore::new(),
        engine: Engine::new(),
        debug_log: Vec::new(),
        chain_responses: Vec::new(),
    }
}

/// Store an entry, overwriting any previous value under the key.
pub fn try_test_db_write(h: &mut Host, key: Vec<u8>, value: Vec<u8>) -> (out: Outcome)
    requires
        old(h).wf(),
    ensures
        final(h).wf(),
        write_effect(old(h).store@, final(h).store@, key@, value@),
        final(h).engine == old(h).engine,
        final(h).debug_log == old(h).debug_log,
        final(h).chain_responses == old(h).chain_responses,
        out == Outcome::Success(Payload::Empty),
{
    h.store.write(key, value);
    Outcome::Success(Payload::Empty)
}

/// Delete the entry under the key; an absent key is not an error.
pub fn try_test_db_remove(h: &mut Host, key: Vec<u8>) -> (out: Outcome)
    requires
        old(h).wf(),
    ensures
        final(h).wf(),
        remove_effect(old(h).store@, final(h).store@, key@),
        final(h).engine == old(h).engine,
        final(h).debug_log == old(h).debug_log,
        final(h).chain_responses == old(h).chain_responses,
        out == Outcome::Success(Payload::Empty),
{
    h.store.remove(&key);
    Outcome::Success(Payload::Empty)
}

/// Open a range scan over the store and return its handle.
pub fn try_test_db_scan(
    h: &mut Host,
    start: Option<Vec<u8>>,
    end: Option<Vec<u8>>,
    order: Order,
) -> (out: Outcome)
    requires
        old(h).wf(),
    ensures
        final(h).wf(),
        final(h).store == old(h).store,
        final(h).debug_log == old(h).debug_log,
        final(h).chain_responses == old(h).chain_responses,
        final(h).engine.cursors@.len() == old(h).engine.cursors@.len() + 1,
        forall|j: int|
            0 <= j < old(h).engine.cursors@.len() ==> final(h).engine.cursors@[j] == #[trigger] old(h).engine.cursors@[j],
        final(h).engine.cursor_entries(old(h).engine.cursors@.len() as int) == scan_seq(
            old(h).store@,
            bound_view(start),
            bound_view(end),
            order,
        ),
        final(h).engine.cursor_pos(old(h).engine.cursors@.len() as int) == 0,
        final(h).engine.is_live(old(h).engine.cursors@.len() as int),
        out == Outcome::Success(
            (Payload::IteratorId { id: old(h).engine.cursors@.len() as u64 }),
        ),
{
    let id = h.engine.scan(&h.store, &start, &end, order);
    Outcome::Success(Payload::IteratorId { id })
}

/// How `next` moves the engine and what it reports.
pub open spec fn next_post(pre: Engine, post: Engine, id: u64, out: Outcome) -> bool {
    &&& post.cursors@.len() == pre.cursors@.len()
    &&& (!pre.is_live(id as int) ==> out == Outcome::Failure(Fault::InvalidHandle) && post == pre)
    &&& (pre.is_live(id as int) ==> {
        let p = pre.cursor_pos(id as int);
        let es = pre.cursor_entries(id as int);
        &&& (forall|j: int|
            0 <= j < pre.cursors@.len() && j != id ==> post.cursors@[j] == #[trigger] pre.cursors@[j])
        &&& (p < es.len() ==> post.is_live(id as int) && post.cursor_entries(id as int) == es
            && post.cursor_pos(id as int) == p + 1 && (out matches Outcome::Success(pl)
            && pl matches Payload::Entry { key, value } && (key@, value@) == es[p]))
        &&& (p >= es.len() ==> out == Outcome::Success(Payload::Finished) && post == pre)
    })
}

/// Advance a live scan one step; exhaustion is signalled idempotently,
/// and a stale or unknown handle is an `InvalidHandle` failure.
pub fn try_test_db_next(h: &mut Host, iterator_id: u64) -> (out: Outcome)
    requires
        old(h).wf(),
    ensures
        final(h).wf(),
        final(h).store == old(h).store,
        final(h).debug_log == old(h).debug_log,
        final(h).chain_responses == old(h).chain_responses,
        next_post(old(h).engine, final(h).engine, iterator_id, out),
{
    match h.engine.next(iterator_id) {
        Step::Entry { key, value } => Outcome::Success(Payload::Entry { key, value }),
        Step::Finished => Outcome::Success(Payload::Finished),
        Step::Invalid => Outcome::Failure(Fault::InvalidHandle),
    }
}

/// Release a scan handle; any later `next` on it is invalid.
pub fn try_test_db_dispose(h: &mut Host, iterator_id: u64) -> (out: Outcome)
    requires
        old(h).wf(),
    ensures
        final(h).wf(),
        final(h).store == old(h).store,
        final(h).debug_log == old(h).debug_log,
        final(h).chain_responses == old(h).chain_responses,
        final(h).engine.cursors@.len() == old(h).engine.cursors@.len(),
        !final(h).engine.is_live(iterator_id as int),
        forall|j: int|
            0 <= j < old(h).engine.cursors@.len() && j != iterator_id ==> final(h).engine.cursors@[j] == #[trigger] old(h).engine.cursors@[j],
        out == if old(h).engine.is_live(iterator_id as int) {
            Outcome::Success(Payload::Empty)
        } else {
            Outcome::Failure(Fault::InvalidHandle)
        },
{
    if h.engine.dispose(iterator_id) {
        Outcome::Success(Payload::Empty)
    } else {
        Outcome::Failure(Fault::InvalidHandle)
    }
}

/// Forward a diagnostic payload to the debug sink; always succeeds.
pub fn try_test_debug_execute(h: &mut Host, payload: Vec<u8>) -> (out: Outcome)
    requires
        old(h).wf(),
    ensures
        final(h).wf(),
        final(h).store == old(h).store,
        final(h).engine == old(h).engine,
        final(h).chain_responses == old(h).chain_responses,
        final(h).debug_log@ == old(h).debug_log@.push(payload),
        out == Outcome::Success(Payload::Empty),
{
    h.debug_log.push(payload);
    Outcome::Success(Payload::Empty)
}

/// What `execute` guarantees for each mutating request kind.
pub open spec fn execute_post(pre: Host, post: Host, msg: ExecuteMsg, out: Outcome) -> bool {
    match msg {
        ExecuteMsg::TestDbWrite { key, value } => {
            &&& write_effect(pre.store@, post.store@, key@, value@)
            &&& post.engine == pre.engine
            &&& post.debug_log == pre.debug_log
            &&& post.chain_responses == pre.chain_responses
            &&& out == Outcome::Success(Payload::Empty)
        },
        ExecuteMsg::TestDbRemove { key } => {
            &&& remove_effect(pre.store@, post.store@, key@)
            &&& post.engine == pre.engine
            &&& post.debug_log == pre.debug_log
            &&& post.chain_responses == pre.chain_responses
            &&& out == Outcome::Success(Payload::Empty)
        },
        ExecuteMsg::TestDbScan { start, end, order } => {
            &&& post.store == pre.store
            &&& post.debug_log == pre.debug_log
            &&& post.chain_responses == pre.chain_responses
            &&& post.engine.cursors@.len() == pre.engine.cursors@.len() + 1
            &&& post.engine.cursor_entries(pre.engine.cursors@.len() as int) == scan_seq(
                pre.store@,
                bound_view(start),
                bound_view(end),
                order,
            )
            &&& post.engine.cursor_pos(pre.engine.cursors@.len() as int) == 0
            &&& post.engine.is_live(pre.engine.cursors@.len() as int)
            &&& out == Outcome::Success(
                (Payload::IteratorId { id: pre.engine.cursors@.len() as u64 }),
            )
        },
        ExecuteMsg::TestDbNext { iterator_id } => {
            &&& post.store == pre.store
            &&& post.debug_log == pre.debug_log
            &&& post.chain_responses == pre.chain_responses
            &&& next_post(pre.engine, post.engine, iterator_id, out)
        },
        ExecuteMsg::TestDebugExecute { payload } => {
            &&& post.store == pre.store
            &&& post.engine == pre.engine
            &&& post.chain_responses == pre.chain_responses
            &&& post.debug_log@ == pre.debug_log@.push(payload)
            &&& out == Outcome::Success(Payload::Empty)
        },
    }
}

/// Decode a mutating request and invoke exactly one capability.
pub fn execute(h: &mut Host, msg: ExecuteMsg) -> (out: Outcome)
    requires
        old(h).wf(),
    ensures
        final(h).wf(),
        execute_post(*old(h), *final(h), msg, out),
{
    match msg {
        ExecuteMsg::TestDbWrite { key, value } => try_test_db_write(h, key, value),
        ExecuteMsg::TestDbRemove { key } => try_test_db_remove(h, key),
        ExecuteMsg::TestDbScan { start, end, order } => try_test_db_scan(h, start, end, order),
        ExecuteMsg::TestDbNext { iterator_id } => try_test_db_next(h, iterator_id),
        ExecuteMsg::TestDebugExecute { payload } => try_test_debug_execute(h, payload),
    }
}

/// Look up the value under a key; absence is `NotFound`, distinct from
/// an empty value.
pub fn query_test_db_read(h: &Host, key: Vec<u8>) -> (r: Result<TestDbReadResponse, Fault>)
    requires
        h.wf(),
    ensures
        r is Ok <==> store_has(h.store@, key@),
        r matches Ok(resp) ==> store_read(h.store@, key@) == Some(resp.value@),
        r matches Err(f) ==> f == Fault::NotFound,
{
    match h.store.read(&key) {
        Some(value) => Ok(TestDbReadResponse { value }),
        None => Err(Fault::NotFound),
    }
}

/// Humanize a canonical address through the codec.
pub fn query_test_addr_humanize(input: Vec<u8>) -> (r: Result<TestAddrHumanizeResponse, Fault>)
    ensures
        r is Ok <==> valid_canon(input@),
        r matches Ok(resp) ==> resp.address@ == human_of(input@).map_values(|b: u8| b as char),
        r matches Err(f) ==> f == Fault::InvalidAddress,
{
    match addr_humanize(&input) {
        Some(address) => Ok(TestAddrHumanizeResponse { address }),
        None => Err(Fault::InvalidAddress),
    }
}

/// Canonicalize a human address through the codec.
pub fn query_test_addr_canonicalize(input: &str) -> (r: Result<
    TestAddrCanonicalizeResponse,
    Fault,
>)
    ensures
        r is Ok <==> valid_human(input.spec_bytes()),
        r matches Ok(resp) ==> resp.address@ == canon_of(input.spec_bytes()),
        r matches Err(f) ==> f == Fault::InvalidAddress,
{
    match addr_canonicalize(input) {
        Some(address) => Ok(TestAddrCanonicalizeResponse { address }),
        None => Err(Fault::InvalidAddress),
    }
}

/// Validate a human address through the codec and return it normalized.
pub fn query_test_addr_validate(input: &str) -> (r: Result<TestAddrValidateResponse, Fault>)
    ensures
        r is Ok <==> valid_human(input.spec_bytes()),
        r matches Ok(resp) ==> resp.address@ == input@,
        r matches Err(f) ==> f == Fault::InvalidAddress,
{
    match addr_validate(input) {
        Some(address) => Ok(TestAddrValidateResponse { address }),
        None => Err(Fault::InvalidAddress),
    }
}

/// Well-formed hex fields for a secp256k1 verification request.
pub open spec fn secp_verify_wf(hash: Seq<u8>, sig: Seq<u8>, pk: Seq<u8>) -> bool {
    &&& hex_wf(hash) && hex_decoded(hash).len() == 32
    &&& hex_wf(sig) && hex_decoded(sig).len() == 64
    &&& hex_wf(pk) && secp_pubkey_shape(hex_decoded(pk))
}

/// Verify a secp256k1 signature over a message hash.  A well-formed
/// signature that does not match is a success carrying `false`.
pub fn query_test_secp256k1_verify(hash: &str, signature: &str, public_key: &str) -> (r: Result<
    TestSecp256k1VerifyResponse,
    Fault,
>)
    ensures
        !secp_verify_wf(hash.spec_bytes(), signature.spec_bytes(), public_key.spec_bytes())
            ==> (r matches Err(f) && f == Fault::DecodingError),
        secp_verify_wf(hash.spec_bytes(), signature.spec_bytes(), public_key.spec_bytes())
            && secp256k1_checked(
            hex_decoded(hash.spec_bytes()),
            hex_decoded(signature.spec_bytes()),
            hex_decoded(public_key.spec_bytes()),
        ) is Some ==> (r matches Ok(resp) && Some(resp.verifies) == secp256k1_checked(
            hex_decoded(hash.spec_bytes()),
            hex_decoded(signature.spec_bytes()),
            hex_decoded(public_key.spec_bytes()),
        )),
        secp_verify_wf(hash.spec_bytes(), signature.spec_bytes(), public_key.spec_bytes())
            && secp256k1_checked(
            hex_decoded(hash.spec_bytes()),
            hex_decoded(signature.spec_bytes()),
            hex_decoded(public_key.spec_bytes()),
        ) is None ==> (r matches Err(f) && f == Fault::VerificationFailed),
{
    let hashed = match hex_decode(hash) {
        Some(v) => v,
        None => {
            return Err(Fault::DecodingError);
        },
    };
    let signed = match hex_decode(signature) {
        Some(v) => v,
        None => {
            return Err(Fault::DecodingError);
        },
    };
    let pubkey = match hex_decode(public_key) {
        Some(v) => v,
        None => {
            return Err(Fault::DecodingError);
        },
    };
    if hashed.len() != 32 || signed.len() != 64 {
        return Err(Fault::DecodingError);
    }
    let shape_ok = (pubkey.len() == 33 && (pubkey[0] == 2 || pubkey[0] == 3)) || (pubkey.len()
        == 65 && pubkey[0] == 4);
    if !shape_ok {
        return Err(Fault::DecodingError);
    }
    match crypto::secp256k1_verify(&hashed, &signed, &pubkey) {
        Ok(verifies) => Ok(TestSecp256k1VerifyResponse { verifies }),
        Err(_) => Err(Fault::VerificationFailed),
    }
}

/// Well-formed fields for a secp256k1 public-key recovery request.
pub open spec fn secp_recover_wf(hash: Seq<u8>, sig: Seq<u8>, recovery_id: u8) -> bool {
    &&& hex_wf(hash) && hex_decoded(hash).len() == 32
    &&& hex_wf(sig) && hex_decoded(sig).len() == 64
    &&& recovery_id <= 1
}

/// Recover the public key a signature was made with, or report that
/// the signature/recovery-id pair is inconsistent.
pub fn query_test_secp256k1_recover_pubkey(hash: &str, signature: &str, recovery_id: u8) -> (r:
    Result<TestSecp256k1RecoverPubkeyResponse, Fault>)
    ensures
        !secp_recover_wf(hash.spec_bytes(), signature.spec_bytes(), recovery_id)
            ==> (r matches Err(f) && f == Fault::DecodingError),
        secp_recover_wf(hash.spec_bytes(), signature.spec_bytes(), recovery_id)
            && secp256k1_recovered(
            hex_decoded(hash.spec_bytes()),
            hex_decoded(signature.spec_bytes()),
            recovery_id,
        ) is Some ==> (r matches Ok(resp) && Some(resp.public_key@) == secp256k1_recovered(
            hex_decoded(hash.spec_bytes()),
            hex_decoded(signature.spec_bytes()),
            recovery_id,
        )),
        secp_recover_wf(hash.spec_bytes(), signature.spec_bytes(), recovery_id)
            && secp256k1_recovered(
            hex_decoded(hash.spec_bytes()),
            hex_decoded(signature.spec_bytes()),
            recovery_id,
        ) is None ==> (r matches Err(f) && f == Fault::RecoveryFailed),
{
    let hashed = match hex_decode(hash) {
        Some(v) => v,
        None => {
            return Err(Fault::DecodingError);
        },
    };
    let signed = match hex_decode(signature) {
        Some(v) => v,
        None => {
            return Err(Fault::DecodingError);
        },
    };
    if hashed.len() != 32 || signed.len() != 64 || recovery_id > 1 {
        return Err(Fault::DecodingError);
    }
    match crypto::secp256k1_recover_pubkey(&hashed, &signed, recovery_id) {
        Ok(public_key) => Ok(TestSecp256k1RecoverPubkeyResponse { public_key }),
        Err(_) => Err(Fault::RecoveryFailed),
    }
}

/// Well-formed hex fields for an ed25519 verification request.
pub open spec fn ed25519_verify_wf(msg: Seq<u8>, sig: Seq<u8>, pk: Seq<u8>) -> bool {
    &&& hex_wf(msg)
    &&& hex_wf(sig) && hex_decoded(sig).len() == 64
    &&& hex_wf(pk) && hex_decoded(pk).len() == 32
}

/// Verify an ed25519 signature over a message.  A well-formed
/// signature that does not match is a success carrying `false`.
pub fn query_test_ed25519_verify(message: &str, signature: &str, public_key: &str) -> (r: Result<
    TestEd25519VerifyResponse,
    Fault,
>)
    ensures
        !ed25519_verify_wf(message.spec_bytes(), signature.spec_bytes(), public_key.spec_bytes())
            ==> (r matches Err(f) && f == Fault::DecodingError),
        ed25519_verify_wf(message.spec_bytes(), signature.spec_bytes(), public_key.spec_bytes())
            ==> (r matches Ok(resp) && resp.verifies == ed25519_verifies(
            hex_decoded(message.spec_bytes()),
            hex_decoded(signature.spec_bytes()),
            hex_decoded(public_key.spec_bytes()),
        )),
{
    let msg = match hex_decode(message) {
        Some(v) => v,
        None => {
            return Err(Fault::DecodingError);
        },
    };
    let signed = match hex_decode(signature) {
        Some(v) => v,
        None => {
            return Err(Fault::DecodingError);
        },
    };
    let pubkey = match hex_decode(public_key) {
        Some(v) => v,
        None => {
            return Err(Fault::DecodingError);
        },
    };
    if signed.len() != 64 || pubkey.len() != 32 {
        return Err(Fault::DecodingError);
    }
    match crypto::ed25519_verify(&msg, &signed, &pubkey) {
        Ok(verifies) => Ok(TestEd25519VerifyResponse { verifies }),
        Err(_) => Err(Fault::VerificationFailed),
    }
}

/// Every string in the list is well-formed hex.
pub open spec fn all_hex(v: Seq<String>) -> bool {
    forall|i: int| 0 <= i < v.len() ==> hex_wf(str_bytes((#[trigger] v[i])@))
}

/// The bytes each hex string in the list decodes to.
pub open spec fn hex_views(v: Seq<String>) -> Seq<Seq<u8>> {
    v.map_values(|s: String| hex_decoded(str_bytes(s@)))
}

/// Decode a list of hex strings, or report the first failure.
fn decode_hex_list(v: &Vec<String>) -> (r: Option<Vec<Vec<u8>>>)
    ensures
        r is Some <==> all_hex(v@),
        r matches Some(out) ==> vec_views(out@) == hex_views(v@),
{
    let mut out: Vec<Vec<u8>> = Vec::new();
    proof {
        assert(vec_views(out@) =~= hex_views(v@).take(0));
    }
    let mut i: usize = 0;
    while i < v.len()
        invariant
            i <= v@.len(),
            forall|j: int| 0 <= j < i ==> hex_wf(str_bytes((#[trigger] v@[j])@)),
            vec_views(out@) == hex_views(v@).take(i as int),
        decreases v@.len() - i,
    {
        match hex_decode(v[i].as_str()) {
            Some(b) => {
                let ghost bv = b@;
                let ghost prev = out@;
                out.push(b);
                proof {
                    assert(prev.len() == i) by {
                        assert(vec_views(prev).len() == i);
                    }
                    assert(out@.len() == i + 1);
                    assert(hex_views(v@).len() == v@.len());
                    assert forall|k: int| 0 <= k < out@.len() implies vec_views(out@)[k]
                        == hex_views(v@).take(i + 1)[k] by {
                        if k < i {
                            assert(out@[k] == prev[k]);
                            assert(vec_views(prev)[k] == hex_views(v@).take(i as int)[k]);
                        } else {
                            assert(out@[k]@ == bv);
                        }
                    }
                    assert(vec_views(out@) =~= hex_views(v@).take(i + 1));
                }
            },
            None => {
                return None;
            },
        }
        i = i + 1;
    }
    proof {
        assert(hex_views(v@).take(v@.len() as int) =~= hex_views(v@));
        assert(vec_views(out@) == hex_views(v@));
    }
    Some(out)
}

/// Every vector in the list has length `n`.
fn all_have_len(v: &Vec<Vec<u8>>, n: usize) -> (r: bool)
    ensures
        r == all_len(vec_views(v@), n as int),
{
    let mut i: usize = 0;
    while i < v.len()
        invariant
            i <= v@.len(),
            forall|j: int| 0 <= j < i ==> (#[trigger] vec_views(v@)[j]).len() == n,
        decreases v@.len() - i,
    {
        if v[i].len() != n {
            assert(vec_views(v@)[i as int].len() != n);
            return false;
        }
        i = i + 1;
    }
    true
}

/// Well-formed fields for an ed25519 batch verification request.
pub open spec fn ed25519_batch_wf(m: Seq<String>, s: Seq<String>, p: Seq<String>) -> bool {
    &&& all_hex(m) && all_hex(s) && all_hex(p)
    &&& batch_counts_ok(m.len() as int, s.len() as int, p.len() as int)
    &&& all_len(hex_views(s), 64)
    &&& all_len(hex_views(p), 32)
}

/// Verify a batch of ed25519 signatures atomically: the batch
/// verifies only if all triples individually verify; the empty batch
/// verifies.
pub fn query_test_ed25519_batch_verify(
    messages: &Vec<String>,
    signatures: &Vec<String>,
    public_keys: &Vec<String>,
) -> (r: Result<TestEd25519BatchVerifyResponse, Fault>)
    ensures
        !ed25519_batch_wf(messages@, signatures@, public_keys@)
            ==> (r matches Err(f) && f == Fault::DecodingError),
        ed25519_batch_wf(messages@, signatures@, public_keys@) ==> r is Ok,
        messages@.len() == 0 && signatures@.len() == 0 && public_keys@.len() == 0
            ==> (r matches Ok(resp) && resp.verifies == true),
{
    let msgs = match decode_hex_list(messages) {
        Some(v) => v,
        None => {
            return Err(Fault::DecodingError);
        },
    };
    let sigs = match decode_hex_list(signatures) {
        Some(v) => v,
        None => {
            return Err(Fault::DecodingError);
        },
    };
    let pks = match decode_hex_list(public_keys) {
        Some(v) => v,
        None => {
            return Err(Fault::DecodingError);
        },
    };
    proof {
        assert(vec_views(msgs@).len() == msgs@.len());
        assert(hex_views(messages@).len() == messages@.len());
        assert(vec_views(sigs@).len() == sigs@.len());
        assert(hex_views(signatures@).len() == signatures@.len());
        assert(vec_views(pks@).len() == pks@.len());
        assert(hex_views(public_keys@).len() == public_keys@.len());
    }
    let m = msgs.len();
    let s = sigs.len();
    let p = pks.len();
    let counts_ok = (m == s && s == p) || (m == 1 && s == p) || (p == 1 && m == s);
    if !counts_ok {
        return Err(Fault::DecodingError);
    }
    if !all_have_len(&sigs, 64) || !all_have_len(&pks, 32) {
        return Err(Fault::DecodingError);
    }
    match crypto::ed25519_batch_verify(&msgs, &sigs, &pks) {
        Ok(verifies) => Ok(TestEd25519BatchVerifyResponse { verifies }),
        Err(_) => {
            proof {
                assert(false);
            }
            Err(Fault::DecodingError)
        },
    }
}

/// Forward a diagnostic payload to the debug sink; always succeeds.
pub fn query_test_debug_query(h: &mut Host, payload: Vec<u8>) -> (r: Result<
    TestDebugQueryResponse,
    Fault,
>)
    requires
        old(h).wf(),
    ensures
        final(h).wf(),
        final(h).store == old(h).store,
        final(h).engine == old(h).engine,
        final(h).chain_responses == old(h).chain_responses,
        final(h).debug_log@ == old(h).debug_log@.push(payload),
        r is Ok,
{
    h.debug_log.push(payload);
    Ok(TestDebugQueryResponse {})
}

/// Forward an opaque query to the chain relay and hand back its
/// response verbatim; with no queued response the relay echoes.
pub fn query_test_query_chain(h: &mut Host, request: Vec<u8>) -> (r: Result<
    TestQueryChainResponse,
    Fault,
>)
    requires
        old(h).wf(),
    ensures
        final(h).wf(),
        final(h).store == old(h).store,
        final(h).engine == old(h).engine,
        final(h).debug_log == old(h).debug_log,
        old(h).chain_responses@.len() > 0 ==> (r matches Ok(resp) && resp.response == old(
            h,
        ).chain_responses@[0] && final(h).chain_responses@ == old(h).chain_responses@.skip(1)),
        old(h).chain_responses@.len() == 0 ==> (r matches Ok(resp) && resp.response@ == request@
            && final(h).chain_responses == old(h).chain_responses),
{
    if h.chain_responses.len() > 0 {
        let response = h.chain_responses.remove(0);
        proof {
            assert(h.chain_responses@ =~= old(h).chain_responses@.skip(1));
        }
        Ok(TestQueryChainResponse { response })
    } else {
        Ok(TestQueryChainResponse { response: request })
    }
}

/// What `query` guarantees for each read-only request kind.
pub open spec fn query_post(pre: Host, post: Host, msg: QueryMsg, out: Outcome) -> bool {
    match msg {
        QueryMsg::TestDbRead { key } => {
            &&& post == pre
            &&& match store_read(pre.store@, key@) {
                Some(v) => out matches Outcome::Success(pl) && pl matches Payload::DbRead(resp)
                    && resp.value@ == v,
                None => out == Outcome::Failure(Fault::NotFound),
            }
        },
        QueryMsg::TestAddrHumanize { input } => {
            &&& post == pre
            &&& if valid_canon(input@) {
                out matches Outcome::Success(pl) && pl matches Payload::AddrHumanize(resp)
                    && resp.address@ == human_of(input@).map_values(|b: u8| b as char)
            } else {
                out == Outcome::Failure(Fault::InvalidAddress)
            }
        },
        QueryMsg::TestAddrCanonicalize { input } => {
            &&& post == pre
            &&& if valid_human(str_bytes(input@)) {
                out matches Outcome::Success(pl) && pl matches Payload::AddrCanonicalize(resp)
                    && resp.address@ == canon_of(str_bytes(input@))
            } else {
                out == Outcome::Failure(Fault::InvalidAddress)
            }
        },
        QueryMsg::TestAddrValidate { input } => {
            &&& post == pre
            &&& if valid_human(str_bytes(input@)) {
                out matches Outcome::Success(pl) && pl matches Payload::AddrValidate(resp)
                    && resp.address@ == input@
            } else {
                out == Outcome::Failure(Fault::InvalidAddress)
            }
        },
        QueryMsg::TestSecp256k1Verify { hash, signature, public_key } => {
            &&& post == pre
            &&& if !secp_verify_wf(
                str_bytes(hash@),
                str_bytes(signature@),
                str_bytes(public_key@),
            ) {
                out == Outcome::Failure(Fault::DecodingError)
            } else {
                match secp256k1_checked(
                    hex_decoded(str_bytes(hash@)),
                    hex_decoded(str_bytes(signature@)),
                    hex_decoded(str_bytes(public_key@)),
                ) {
                    Some(b) => out matches Outcome::Success(pl)
                        && pl matches Payload::Secp256k1Verify(resp) && resp.verifies == b,
                    None => out == Outcome::Failure(Fault::VerificationFailed),
                }
            }
        },
        QueryMsg::TestSecp256k1RecoverPubkey { hash, signature, recovery_id } => {
            &&& post == pre
            &&& if !secp_recover_wf(str_bytes(hash@), str_bytes(signature@), recovery_id) {
                out == Outcome::Failure(Fault::DecodingError)
            } else {
                match secp256k1_recovered(
                    hex_decoded(str_bytes(hash@)),
                    hex_decoded(str_bytes(signature@)),
                    recovery_id,
                ) {
                    Some(pk) => out matches Outcome::Success(pl)
                        && pl matches Payload::Secp256k1RecoverPubkey(resp) && resp.public_key@
                        == pk,
                    None => out == Outcome::Failure(Fault::RecoveryFailed),
                }
            }
        },
        QueryMsg::TestEd25519Verify { message, signature, public_key } => {
            &&& post == pre
            &&& if !ed25519_verify_wf(
                str_bytes(message@),
                str_bytes(signature@),
                str_bytes(public_key@),
            ) {
                out == Outcome::Failure(Fault::DecodingError)
            } else {
                out matches Outcome::Success(pl) && pl matches Payload::Ed25519Verify(resp)
                    && resp.verifies == ed25519_verifies(
                    hex_decoded(str_bytes(message@)),
                    hex_decoded(str_bytes(signature@)),
                    hex_decoded(str_bytes(public_key@)),
                )
            }
        },
        QueryMsg::TestEd25519BatchVerify { messages, signatures, public_keys } => {
            &&& post == pre
            &&& if !ed25519_batch_wf(messages@, signatures@, public_keys@) {
                out == Outcome::Failure(Fault::DecodingError)
            } else {
                out matches Outcome::Success(pl) && pl is Ed25519BatchVerify
            }
            &&& (messages@.len() == 0 && signatures@.len() == 0 && public_keys@.len() == 0
                ==> (out matches Outcome::Success(pl) && pl matches Payload::Ed25519BatchVerify(
                resp,
            ) && resp.verifies == true))
        },
        QueryMsg::TestDebugQuery { payload } => {
            &&& post.store == pre.store
            &&& post.engine == pre.engine
            &&& post.chain_responses == pre.chain_responses
            &&& post.debug_log@ == pre.debug_log@.push(payload)
            &&& out == Outcome::Success(Payload::DebugQuery(TestDebugQueryResponse {}))
        },
        QueryMsg::TestQueryChain { request } => {
            &&& post.store == pre.store
            &&& post.engine == pre.engine
            &&& post.debug_log == pre.debug_log
            &&& (pre.chain_responses@.len() > 0 ==> (out matches Outcome::Success(pl)
                && pl matches Payload::QueryChain(resp) && resp.response
                == pre.chain_responses@[0] && post.chain_responses@
                == pre.chain_responses@.skip(1)))
            &&& (pre.chain_responses@.len() == 0 ==> (out matches Outcome::Success(pl)
                && pl matches Payload::QueryChain(resp) && resp.response@ == request@
                && post.chain_responses == pre.chain_responses))
        },
    }
}

/// Decode a read-only request and invoke exactly one capability.
pub fn query(h: &mut Host, msg: QueryMsg) -> (out: Outcome)
    requires
        old(h).wf(),
    ensures
        final(h).wf(),
        query_post(*old(h), *final(h), msg, out),
{
    match msg {
        QueryMsg::TestDbRead { key } => match query_test_db_read(h, key) {
            Ok(resp) => Outcome::Success(Payload::DbRead(resp)),
            Err(f) => Outcome::Failure(f),
        },
        QueryMsg::TestAddrHumanize { input } => match query_test_addr_humanize(input) {
            Ok(resp) => Outcome::Success(Payload::AddrHumanize(resp)),
            Err(f) => Outcome::Failure(f),
        },
        QueryMsg::TestAddrCanonicalize { input } => match query_test_addr_canonicalize(
            input.as_str(),
        ) {
            Ok(resp) => Outcome::Success(Payload::AddrCanonicalize(resp)),
            Err(f) => Outcome::Failure(f),
        },
        QueryMsg::TestAddrValidate { input } => match query_test_addr_validate(input.as_str()) {
            Ok(resp) => Outcome::Success(Payload::AddrValidate(resp)),
            Err(f) => Outcome::Failure(f),
        },
        QueryMsg::TestSecp256k1Verify { hash, signature, public_key } => match
            query_test_secp256k1_verify(hash.as_str(), signature.as_str(), public_key.as_str()) {
            Ok(resp) => Outcome::Success(Payload::Secp256k1Verify(resp)),
            Err(f) => Outcome::Failure(f),
        },
        QueryMsg::TestSecp256k1RecoverPubkey { hash, signature, recovery_id } => match
            query_test_secp256k1_recover_pubkey(hash.as_str(), signature.as_str(), recovery_id) {
            Ok(resp) => Outcome::Success(Payload::Secp256k1RecoverPubkey(resp)),
            Err(f) => Outcome::Failure(f),
        },
        QueryMsg::TestEd25519Verify { message, signature, public_key } => match
            query_test_ed25519_verify(message.as_str(), signature.as_str(), public_key.as_str()) {
            Ok(resp) => Outcome::Success(Payload::Ed25519Verify(resp)),
            Err(f) => Outcome::Failure(f),
        },
        QueryMsg::TestEd25519BatchVerify { messages, signatures, public_keys } => match
            query_test_ed25519_batch_verify(&messages, &signatures, &public_keys) {
            Ok(resp) => Outcome::Success(Payload::Ed25519BatchVerify(resp)),
            Err(f) => Outcome::Failure(f),
        },
        QueryMsg::TestDebugQuery { payload } => match query_test_debug_query(h, payload) {
            Ok(resp) => Outcome::Success(Payload::DebugQuery(resp)),
            Err(f) => Outcome::Failure(f),
        },
        QueryMsg::TestQueryChain { request } => match query_test_query_chain(h, request) {
            Ok(resp) => Outcome::Success(Payload::QueryChain(resp)),
            Err(f) => Outcome::Failure(f),
        },
    }
}

} // verus!
