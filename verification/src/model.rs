use vstd::prelude::*;

verus! {

/// A user of the relay.
#[derive(Debug)]
pub struct User {
    pub user_id: u32,
}

/// The payload of a data frame. `sender_user_id` holds the id of the user
/// whom the message is for.
#[derive(Debug)]
pub struct Message {
    pub sender_user_id: String,
    pub message: String,
}

} // verus!
