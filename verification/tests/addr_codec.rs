use cw_vm_test::dispatch::{instantiate, query};
use cw_vm_test::envelope::{Fault, Outcome, Payload};
use cw_vm_test::msg::{InstantiateMsg, QueryMsg};

#[test]
fn canonicalize_then_humanize_round_trips() {
    let mut h = instantiate(InstantiateMsg {});
    let out = query(
        &mut h,
        QueryMsg::TestAddrCanonicalize { input: "alice123".to_string() },
    );
    let canonical = match out {
        Outcome::Success(Payload::AddrCanonicalize(resp)) => resp.address,
        other => panic!("unexpected outcome: {:?}", other),
    };
    assert_eq!(canonical.len(), 32);
    assert_eq!(canonical[0], 8);
    assert_eq!(&canonical[1..9], b"alice123");
    assert!(canonical[9..].iter().all(|b| *b == 0));
    let out = query(&mut h, QueryMsg::TestAddrHumanize { input: canonical });
    match out {
        Outcome::Success(Payload::AddrHumanize(resp)) => {
            assert_eq!(resp.address, "alice123".to_string())
        }
        other => panic!("unexpected outcome: {:?}", other),
    }
}

#[test]
fn validate_returns_normalized_address() {
    let mut h = instantiate(InstantiateMsg {});
    let out = query(&mut h, QueryMsg::TestAddrValidate { input: "bob7".to_string() });
    match out {
        Outcome::Success(Payload::AddrValidate(resp)) => {
            assert_eq!(resp.address, "bob7".to_string())
        }
        other => panic!("unexpected outcome: {:?}", other),
    }
}

#[test]
fn validate_rejects_malformed_addresses() {
    let mut h = instantiate(InstantiateMsg {});
    for bad in ["", "ab", "UPPER", "has space", "way_too_long_for_an_address_form"] {
        let out = query(&mut h, QueryMsg::TestAddrValidate { input: bad.to_string() });
        assert_eq!(out, Outcome::Failure(Fault::InvalidAddress), "input: {:?}", bad);
    }
}

#[test]
fn canonicalize_rejects_malformed_addresses() {
    let mut h = instantiate(InstantiateMsg {});
    let out = query(&mut h, QueryMsg::TestAddrCanonicalize { input: "No!".to_string() });
    assert_eq!(out, Outcome::Failure(Fault::InvalidAddress));
}

#[test]
fn humanize_rejects_malformed_canonical_forms() {
    let mut h = instantiate(InstantiateMsg {});
    // wrong width
    let out = query(&mut h, QueryMsg::TestAddrHumanize { input: vec![3, b'a', b'b', b'c'] });
    assert_eq!(out, Outcome::Failure(Fault::InvalidAddress));
    // length byte out of range
    let mut c = vec![0u8; 32];
    c[0] = 2;
    c[1] = b'a';
    c[2] = b'b';
    let out = query(&mut h, QueryMsg::TestAddrHumanize { input: c });
    assert_eq!(out, Outcome::Failure(Fault::InvalidAddress));
    // nonzero padding
    let mut c = vec![0u8; 32];
    c[0] = 3;
    c[1] = b'a';
    c[2] = b'b';
    c[3] = b'c';
    c[31] = 1;
    let out = query(&mut h, QueryMsg::TestAddrHumanize { input: c });
    assert_eq!(out, Outcome::Failure(Fault::InvalidAddress));
}
