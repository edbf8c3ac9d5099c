//! Address codec: conversion between the human-readable string form of
//! an address and its fixed-width canonical byte form.
//!
//! A valid human address is 3 to 30 lowercase ASCII letters or digits.
//! Its canonical form is 32 bytes: the length, the address bytes, then
//! zero padding.  Malformed input of either form is rejected, never
//! truncated or padded silently.

use vstd::prelude::*;
use vstd::string::StringSliceAdditionalSpecFns;

verus! {

/// Width of the canonical byte form.
pub const CANONICAL_LEN: usize = 32;

/// Shortest accepted human address.
pub const ADDR_MIN_LEN: usize = 3;

/// Longest accepted human address.
pub const ADDR_MAX_LEN: usize = 30;

/// A byte a human address may contain: lowercase letter or digit.
pub open spec fn is_addr_byte(b: u8) -> bool {
    (0x61 <= b && b <= 0x7a) || (0x30 <= b && b <= 0x39)
}

/// A well-formed human address, as bytes.
pub open spec fn valid_human(b: Seq<u8>) -> bool {
    &&& ADDR_MIN_LEN <= b.len() <= ADDR_MAX_LEN
    &&& forall|i: int| 0 <= i < b.len() ==> is_addr_byte(#[trigger] b[i])
}

/// The canonical form of a valid human address: length byte, address
/// bytes, zero padding.
pub open spec fn canon_of(b: Seq<u8>) -> Seq<u8> {
    seq![b.len() as u8] + b + Seq::new((CANONICAL_LEN - b.len() - 1) as nat, |i: int| 0u8)
}

/// A well-formed canonical address.
pub open spec fn valid_canon(c: Seq<u8>) -> bool {
    &&& c.len() == CANONICAL_LEN
    &&& ADDR_MIN_LEN <= c[0] <= ADDR_MAX_LEN
    &&& forall|i: int| 1 <= i <= c[0] ==> is_addr_byte(#[trigger] c[i])
    &&& forall|i: int| c[0] < i < CANONICAL_LEN ==> #[trigger] c[i] == 0
}

/// The human address a canonical form denotes, as bytes.
pub open spec fn human_of(c: Seq<u8>) -> Seq<u8> {
    c.subrange(1, c[0] + 1)
}

/// Canonicalizing a valid address and humanizing the result round-trips
/// to the original address.
pub proof fn lemma_addr_round_trip(b: Seq<u8>)
    requires
        valid_human(b),
    ensures
        valid_canon(canon_of(b)),
        human_of(canon_of(b)) == b,
{
    let c = canon_of(b);
    assert(c.len() == CANONICAL_LEN);
    assert(c[0] == b.len() as u8);
    assert forall|i: int| 1 <= i <= c[0] implies is_addr_byte(#[trigger] c[i]) by {
        assert(c[i] == b[i - 1]);
    }
    assert forall|i: int| c[0] < i < CANONICAL_LEN implies #[trigger] c[i] == 0 by {}
    assert(human_of(c) =~= b);
}

/// Relies on String::from_utf8: a vector of ASCII bytes is valid UTF-8
/// and converts to the string of exactly those bytes.
#[verifier::external_body]
fn ascii_string(bytes: Vec<u8>) -> (r: String)
    requires
        forall|i: int| 0 <= i < bytes@.len() ==> #[trigger] bytes@[i] < 0x80,
    ensures
        r@ == bytes@.map_values(|b: u8| b as char),
{
    String::from_utf8(bytes).unwrap_or_default()
}

/// Decide whether a byte slice is a well-formed human address.
fn check_human(b: &[u8]) -> (r: bool)
    ensures
        r == valid_human(b@),
{
    if b.len() < ADDR_MIN_LEN || b.len() > ADDR_MAX_LEN {
        return false;
    }
    let mut i: usize = 0;
    while i < b.len()
        invariant
            i <= b@.len(),
            forall|j: int| 0 <= j < i ==> is_addr_byte(#[trigger] b@[j]),
        decreases b@.len() - i,
    {
        let x = b[i];
        if !((0x61 <= x && x <= 0x7a) || (0x30 <= x && x <= 0x39)) {
            return false;
        }
        i = i + 1;
    }
    true
}

/// Check a human address and return it normalized; reject anything
/// malformed.
pub fn addr_validate(input: &str) -> (r: Option<String>)
    ensures
        r is Some <==> valid_human(input.spec_bytes()),
        r matches Some(s) ==> s@ == input@,
{
    let b = input.as_bytes();
    if check_human(b) {
        Some(input.to_owned())
    } else {
        None
    }
}

/// Convert a human address to its canonical byte form; reject anything
/// malformed.
#[verifier::loop_isolation(false)]
pub fn addr_canonicalize(input: &str) -> (r: Option<Vec<u8>>)
    ensures
        r is Some <==> valid_human(input.spec_bytes()),
        r matches Some(v) ==> v@ == canon_of(input.spec_bytes()),
{
    let b = input.as_bytes();
    if !check_human(b) {
        return None;
    }
    let mut out: Vec<u8> = Vec::new();
    out.push(b.len() as u8);
    let mut i: usize = 0;
    while i < b.len()
        invariant
            i <= b@.len(),
            out@.len() == i + 1,
            out@[0] == b@.len() as u8,
            forall|j: int| 0 <= j < i ==> out@[j + 1] == #[trigger] b@[j],
        decreases b@.len() - i,
    {
        out.push(b[i]);
        i = i + 1;
    }
    while out.len() < CANONICAL_LEN
        invariant
            b@.len() + 1 <= out@.len() <= CANONICAL_LEN,
            out@[0] == b@.len() as u8,
            forall|j: int| 0 <= j < b@.len() ==> out@[j + 1] == #[trigger] b@[j],
            forall|j: int| b@.len() < j < out@.len() ==> #[trigger] out@[j] == 0,
        decreases CANONICAL_LEN - out@.len(),
    {
        out.push(0);
    }
    proof {
        assert(out@ =~= canon_of(input.spec_bytes()));
    }
    Some(out)
}

/// Convert a canonical byte form back to the human address it denotes;
/// reject anything malformed.
#[verifier::loop_isolation(false)]
pub fn addr_humanize(canon: &Vec<u8>) -> (r: Option<String>)
    ensures
        r is Some <==> valid_canon(canon@),
        r matches Some(s) ==> s@ == human_of(canon@).map_values(|b: u8| b as char),
{
    if canon.len() != CANONICAL_LEN {
        return None;
    }
    let l = canon[0];
    if l < ADDR_MIN_LEN as u8 || l > ADDR_MAX_LEN as u8 {
        return None;
    }
    let len = l as usize;
    let mut body: Vec<u8> = Vec::new();
    let mut i: usize = 1;
    while i <= len
        invariant
            1 <= i <= len + 1,
            body@.len() == i - 1,
            forall|j: int| 0 <= j < i - 1 ==> body@[j] == #[trigger] canon@[j + 1],
            forall|j: int| 1 <= j < i ==> is_addr_byte(#[trigger] canon@[j]),
        decreases len + 1 - i,
    {
        let x = canon[i];
        if !((0x61 <= x && x <= 0x7a) || (0x30 <= x && x <= 0x39)) {
            return None;
        }
        body.push(x);
        i = i + 1;
    }
    while i < CANONICAL_LEN
        invariant
            len + 1 <= i <= CANONICAL_LEN,
            body@.len() == len,
            forall|j: int| 0 <= j < len ==> body@[j] == #[trigger] canon@[j + 1],
            forall|j: int| 1 <= j <= len ==> is_addr_byte(#[trigger] canon@[j]),
            forall|j: int| len < j < i ==> #[trigger] canon@[j] == 0,
        decreases CANONICAL_LEN - i,
    {
        if canon[i] != 0 {
            return None;
        }
        i = i + 1;
    }
    proof {
        assert(valid_canon(canon@));
        assert(body@ =~= human_of(canon@));
        assert forall|j: int| 0 <= j < body@.len() implies #[trigger] body@[j] < 0x80 by {
            assert(is_addr_byte(canon@[j + 1]));
        }
    }
    Some(ascii_string(body))
}

} // verus!
