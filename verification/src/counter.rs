//! The counter-style sibling interface: a count owned by the account
//! that instantiated it.  Anyone may increment; only the owner may
//! reset, anyone else is turned away as unauthorized.

use vstd::prelude::*;

use crate::envelope::Fault;

verus! {

/// The counter's state.
#[derive(Clone, Debug, PartialEq)]
pub struct State {
    pub count: i32,
    pub owner: String,
}

/// The current count.
#[derive(Clone, Copy, Debug, PartialEq, Eq, Structural)]
pub struct GetCountResponse {
    pub count: i32,
}

/// Create the counter state with its starting count and owner.
pub fn instantiate(count: i32, sender: String) -> (s: State)
    ensures
        s.count == count,
        s.owner@ == sender@,
{
    State { count, owner: sender }
}

/// Increase the count by one; any caller may do this.
pub fn try_increment(state: &mut State) -> (r: Result<(), Fault>)
    requires
        old(state).count < i32::MAX,
    ensures
        r is Ok,
        final(state).count == old(state).count + 1,
        final(state).owner == old(state).owner,
{
    state.count = state.count + 1;
    Ok(())
}

/// Set the count to a chosen value; only the owner may do this, anyone
/// else is unauthorized and the state is untouched.
pub fn try_reset(state: &mut State, sender: &String, count: i32) -> (r: Result<(), Fault>)
    ensures
        sender@ == old(state).owner@ ==> r is Ok && final(state).count == count && final(state).owner == old(state).owner,
        sender@ != old(state).owner@ ==> (r matches Err(f) && f == Fault::Unauthorized) && *final(state) == *old(state),
{
    if *sender == state.owner {
        state.count = count;
        Ok(())
    } else {
        Err(Fault::Unauthorized)
    }
}

/// Read the current count.
pub fn query_count(state: &State) -> (r: GetCountResponse)
    ensures
        r.count == state.count,
{
    GetCountResponse { count: state.count }
}

} // verus!
