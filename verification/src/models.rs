//! The bodies of the user endpoint.

use vstd::prelude::*;

verus! {

/// The body of a "create user" request.
#[derive(Debug)]
pub struct NewUser {
    pub name: String,
}

/// The body of the answer to a "create user" request.
#[derive(Debug)]
pub struct CreatedUser {
    pub id: u32,
    pub name: String,
}

} // verus!
