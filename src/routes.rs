//! Fixed replies of the HTTP surface.

use vstd::prelude::*;

verus! {

/// The greeting served at the root path.
pub fn index() -> (r: &'static str)
    ensures
        r@ == "Welcome to eFantasy API"@,
{
    "Welcome to eFantasy API"
}

/// The reply sent when a request conflicts with an existing account.
pub fn conflict_catcher() -> (r: &'static str)
    ensures
        r@ == "Username or email already exists!"@,
{
    "Username or email already exists!"
}

} // verus!
