use cw_vm_test::dispatch::{execute, instantiate, query, try_test_db_dispose, Host};
use cw_vm_test::engine::Order;
use cw_vm_test::envelope::{Fault, Outcome, Payload};
use cw_vm_test::msg::{ExecuteMsg, InstantiateMsg, QueryMsg};

fn fresh() -> Host {
    instantiate(InstantiateMsg {})
}

fn write(h: &mut Host, key: &[u8], value: &[u8]) {
    let out = execute(
        h,
        ExecuteMsg::TestDbWrite { key: key.to_vec(), value: value.to_vec() },
    );
    assert_eq!(out, Outcome::Success(Payload::Empty));
}

fn read(h: &mut Host, key: &[u8]) -> Outcome {
    query(h, QueryMsg::TestDbRead { key: key.to_vec() })
}

fn scan(h: &mut Host, start: Option<&[u8]>, end: Option<&[u8]>, order: Order) -> u64 {
    let out = execute(
        h,
        ExecuteMsg::TestDbScan {
            start: start.map(|s| s.to_vec()),
            end: end.map(|e| e.to_vec()),
            order,
        },
    );
    match out {
        Outcome::Success(Payload::IteratorId { id }) => id,
        other => panic!("scan did not yield a handle: {:?}", other),
    }
}

fn next(h: &mut Host, id: u64) -> Outcome {
    execute(h, ExecuteMsg::TestDbNext { iterator_id: id })
}

fn collect(h: &mut Host, id: u64) -> Vec<(Vec<u8>, Vec<u8>)> {
    let mut out = Vec::new();
    loop {
        match next(h, id) {
            Outcome::Success(Payload::Entry { key, value }) => out.push((key, value)),
            Outcome::Success(Payload::Finished) => return out,
            other => panic!("unexpected step: {:?}", other),
        }
    }
}

#[test]
fn read_returns_last_written_value() {
    let mut h = fresh();
    write(&mut h, b"k", b"first");
    write(&mut h, b"k", b"second");
    match read(&mut h, b"k") {
        Outcome::Success(Payload::DbRead(resp)) => assert_eq!(resp.value, b"second".to_vec()),
        other => panic!("unexpected outcome: {:?}", other),
    }
}

#[test]
fn read_of_empty_value_is_not_not_found() {
    let mut h = fresh();
    write(&mut h, b"k", b"");
    match read(&mut h, b"k") {
        Outcome::Success(Payload::DbRead(resp)) => assert_eq!(resp.value, Vec::<u8>::new()),
        other => panic!("unexpected outcome: {:?}", other),
    }
}

#[test]
fn remove_absent_key_succeeds_and_read_is_not_found() {
    let mut h = fresh();
    let out = execute(&mut h, ExecuteMsg::TestDbRemove { key: b"ghost".to_vec() });
    assert_eq!(out, Outcome::Success(Payload::Empty));
    assert_eq!(read(&mut h, b"ghost"), Outcome::Failure(Fault::NotFound));
}

#[test]
fn remove_written_key_then_read_is_not_found() {
    let mut h = fresh();
    write(&mut h, b"k", b"v");
    let out = execute(&mut h, ExecuteMsg::TestDbRemove { key: b"k".to_vec() });
    assert_eq!(out, Outcome::Success(Payload::Empty));
    assert_eq!(read(&mut h, b"k"), Outcome::Failure(Fault::NotFound));
}

#[test]
fn ascending_scan_with_bounds_is_ordered_and_in_range() {
    let mut h = fresh();
    write(&mut h, b"a", b"1");
    write(&mut h, b"c", b"3");
    write(&mut h, b"b", b"2");
    write(&mut h, b"e", b"5");
    write(&mut h, b"d", b"4");
    let id = scan(&mut h, Some(b"b"), Some(b"e"), Order::Ascending);
    let entries = collect(&mut h, id);
    assert_eq!(
        entries,
        vec![
            (b"b".to_vec(), b"2".to_vec()),
            (b"c".to_vec(), b"3".to_vec()),
            (b"d".to_vec(), b"4".to_vec()),
        ]
    );
    // exhaustion is idempotent
    assert_eq!(next(&mut h, id), Outcome::Success(Payload::Finished));
    assert_eq!(next(&mut h, id), Outcome::Success(Payload::Finished));
}

#[test]
fn descending_scan_is_exact_reverse_of_ascending() {
    let mut h = fresh();
    write(&mut h, b"a", b"1");
    write(&mut h, b"b", b"2");
    write(&mut h, b"c", b"3");
    write(&mut h, b"d", b"4");
    let asc = scan(&mut h, Some(b"a"), Some(b"d"), Order::Ascending);
    let up = collect(&mut h, asc);
    let desc = scan(&mut h, Some(b"a"), Some(b"d"), Order::Descending);
    let down = collect(&mut h, desc);
    let mut reversed = up.clone();
    reversed.reverse();
    assert_eq!(down, reversed);
}

#[test]
fn unbounded_ascending_scan_yields_all_entries_in_order() {
    let mut h = fresh();
    write(&mut h, b"a", b"1");
    write(&mut h, b"b", b"2");
    write(&mut h, b"c", b"3");
    let id = scan(&mut h, None, None, Order::Ascending);
    assert_eq!(
        next(&mut h, id),
        Outcome::Success(Payload::Entry { key: b"a".to_vec(), value: b"1".to_vec() })
    );
    assert_eq!(
        next(&mut h, id),
        Outcome::Success(Payload::Entry { key: b"b".to_vec(), value: b"2".to_vec() })
    );
    assert_eq!(
        next(&mut h, id),
        Outcome::Success(Payload::Entry { key: b"c".to_vec(), value: b"3".to_vec() })
    );
    assert_eq!(next(&mut h, id), Outcome::Success(Payload::Finished));
}

#[test]
fn scan_snapshot_ignores_later_writes() {
    let mut h = fresh();
    write(&mut h, b"a", b"1");
    let id = scan(&mut h, None, None, Order::Ascending);
    write(&mut h, b"b", b"2");
    let entries = collect(&mut h, id);
    assert_eq!(entries, vec![(b"a".to_vec(), b"1".to_vec())]);
}

#[test]
fn next_on_unknown_handle_is_invalid() {
    let mut h = fresh();
    assert_eq!(next(&mut h, 7), Outcome::Failure(Fault::InvalidHandle));
}

#[test]
fn next_on_disposed_handle_is_invalid() {
    let mut h = fresh();
    write(&mut h, b"a", b"1");
    let id = scan(&mut h, None, None, Order::Ascending);
    assert_eq!(try_test_db_dispose(&mut h, id), Outcome::Success(Payload::Empty));
    assert_eq!(next(&mut h, id), Outcome::Failure(Fault::InvalidHandle));
    // disposing again reports the handle as invalid too
    assert_eq!(try_test_db_dispose(&mut h, id), Outcome::Failure(Fault::InvalidHandle));
}

#[test]
fn debug_probe_acknowledges_and_logs() {
    let mut h = fresh();
    let out = execute(&mut h, ExecuteMsg::TestDebugExecute { payload: b"ping".to_vec() });
    assert_eq!(out, Outcome::Success(Payload::Empty));
    assert_eq!(h.debug_log, vec![b"ping".to_vec()]);
    let out = query(&mut h, QueryMsg::TestDebugQuery { payload: b"pong".to_vec() });
    match out {
        Outcome::Success(Payload::DebugQuery(_)) => {}
        other => panic!("unexpected outcome: {:?}", other),
    }
    assert_eq!(h.debug_log, vec![b"ping".to_vec(), b"pong".to_vec()]);
}

#[test]
fn chain_query_returns_relay_response_verbatim() {
    let mut h = fresh();
    h.chain_responses.push(b"relay says hi".to_vec());
    let out = query(&mut h, QueryMsg::TestQueryChain { request: b"who?".to_vec() });
    match out {
        Outcome::Success(Payload::QueryChain(resp)) => {
            assert_eq!(resp.response, b"relay says hi".to_vec())
        }
        other => panic!("unexpected outcome: {:?}", other),
    }
    // with nothing queued the relay echoes the request
    let out = query(&mut h, QueryMsg::TestQueryChain { request: b"echo".to_vec() });
    match out {
        Outcome::Success(Payload::QueryChain(resp)) => assert_eq!(resp.response, b"echo".to_vec()),
        other => panic!("unexpected outcome: {:?}", other),
    }
}
