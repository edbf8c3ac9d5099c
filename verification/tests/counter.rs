use cw_vm_test::counter::{instantiate, query_count, try_increment, try_reset};
use cw_vm_test::envelope::Fault;

#[test]
fn proper_initialization() {
    let state = instantiate(17, "creator".to_string());
    let value = query_count(&state);
    assert_eq!(17, value.count);
}

#[test]
fn increment() {
    let mut state = instantiate(17, "creator".to_string());

    // anyone can increment
    try_increment(&mut state).unwrap();

    // should increase counter by 1
    let value = query_count(&state);
    assert_eq!(18, value.count);
}

#[test]
fn reset() {
    let mut state = instantiate(17, "creator".to_string());

    // a stranger cannot reset
    let unauth_sender = "anyone".to_string();
    let res = try_reset(&mut state, &unauth_sender, 5);
    match res {
        Err(Fault::Unauthorized) => {}
        _ => panic!("Must return unauthorized error"),
    }

    // only the original creator can reset the counter
    let auth_sender = "creator".to_string();
    try_reset(&mut state, &auth_sender, 5).unwrap();

    // should now be 5
    let value = query_count(&state);
    assert_eq!(5, value.count);
}
