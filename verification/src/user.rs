//! The users that the server knows.

use vstd::prelude::*;

verus! {

/// A user of the server: a name and a password.
#[derive(Clone, Debug, PartialEq, Eq)]
pub struct User {
    pub username: String,
    pub password: String,
}

impl User {
    /// The user with the given name and password.
    pub fn new(username: String, password: String) -> (r: User)
        ensures
            r.username == username,
            r.password == password,
    {
        User { username, password }
    }
}

} // verus!
