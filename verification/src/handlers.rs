//! The greeting and the user endpoint.

use vstd::prelude::*;
use crate::models::{CreatedUser, NewUser};

verus! {

/// The greeting.
pub fn get_hello() -> (r: &'static str)
    ensures
        r@ == "Hello, Axum!!!"@,
{
    "Hello, Axum!!!"
}

/// Answers a "create user" request: the user gets the id 1 and the name
/// that was sent.
pub fn create_user(payload: NewUser) -> (r: CreatedUser)
    ensures
        r.id == 1,
        r.name == payload.name,
{
    CreatedUser { id: 1, name: payload.name }
}

} // verus!
