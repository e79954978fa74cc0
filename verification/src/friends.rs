//! The plain data type the friends endpoints exchange.

use vstd::prelude::*;

verus! {

/// What a request to add a friend carries: the friend's username.
pub struct AddFriendPayload {
    pub username: String,
}

} // verus!
