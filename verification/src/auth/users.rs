use vstd::prelude::*;

verus! {

/// The user a session carries.
#[derive(Clone, PartialEq, Eq, Debug)]
pub struct SessionUser {
    pub id: i64,
    pub username: String,
    pub session_auth_hash: Vec<u8>,
}

impl Default for SessionUser {
    fn default() -> (user: Self)
        ensures
            user.id == 0,
            user.username@.len() == 0,
            user.session_auth_hash@.len() == 0,
    {
        SessionUser { id: 0, username: String::new(), session_auth_hash: Vec::new() }
    }
}

} // verus!
