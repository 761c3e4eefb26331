//! What clients send about user accounts.

use vstd::prelude::*;

verus! {

/// The data required to create a new user.
#[derive(Debug, PartialEq, Eq)]
pub struct NewUser {
    pub username: String,
    pub email: String,
    pub password: String,
}

/// The data for completing a user's profile; absent fields stay as they are.
#[derive(Debug, PartialEq, Eq)]
pub struct ProfileCompletion {
    pub nickname: Option<String>,
    pub bio: Option<String>,
    pub avatar_url: Option<String>,
}

/// The data for updating a user's profile; absent fields stay as they are.
#[derive(Debug, PartialEq, Eq)]
pub struct UserProfileUpdate {
    pub nickname: Option<String>,
    pub bio: Option<String>,
    pub avatar_url: Option<String>,
}

/// The credentials for user login.
#[derive(Debug, PartialEq, Eq)]
pub struct LoginCredentials {
    pub username: String,
    pub password: String,
}

} // verus!
