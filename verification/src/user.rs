//! The data the service stores and accepts.

use vstd::prelude::*;

verus! {

/// A persisted user row: a 128-bit identifier and a username, and nothing
/// else. The create request's password has no place here.
pub struct User {
    pub id: u128,
    pub username: String,
}

impl View for User {
    type V = (u128, Seq<char>);

    /// A row's mathematical value: the identifier and the username's characters.
    open spec fn view(&self) -> (u128, Seq<char>) {
        (self.id, self.username@)
    }
}

/// The body of a create request: a username and a password. The password is
/// accepted to satisfy the request schema and is never persisted.
pub struct CreateUser {
    pub username: String,
    pub password: String,
}

/// The table contents that a sequence of rows holds.
pub open spec fn rows_of(users: Seq<User>) -> Seq<(u128, Seq<char>)> {
    users.map_values(|u: User| u@)
}

} // verus!
