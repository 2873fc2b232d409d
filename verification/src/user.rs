//! The user record and the plain values around account handling.
//!
//! Users are stored and authenticated outside the broker: the store upserts
//! rows, the identity provider verifies tokens, and password hashing is a
//! salted outside computation. This module holds the records as plain
//! values and the one verified mapping: from a verified identity-provider
//! profile to the row an upsert writes.

use vstd::prelude::*;

verus! {

/// A registered user, as the store hands it back. Timestamps are seconds
/// since the epoch.
#[derive(Debug)]
pub struct User {
    pub id: i64,
    pub created_at: i64,
    pub updated_at: i64,
    pub firebase_uid: String,
    pub email: String,
    pub email_verified: bool,
}

/// What a [`User`] holds, mathematically.
#[verifier::ext_equal]
pub struct UserData {
    pub id: i64,
    pub created_at: i64,
    pub updated_at: i64,
    pub firebase_uid: Seq<char>,
    pub email: Seq<char>,
    pub email_verified: bool,
}

impl View for User {
    type V = UserData;

    open spec fn view(&self) -> UserData {
        UserData {
            id: self.id,
            created_at: self.created_at,
            updated_at: self.updated_at,
            firebase_uid: self.firebase_uid@,
            email: self.email@,
            email_verified: self.email_verified,
        }
    }
}

impl DeepView for User {
    type V = UserData;

    open spec fn deep_view(&self) -> UserData {
        self.view()
    }
}

impl User {
    /// The user's stable id.
    pub fn id(&self) -> (r: i64)
        ensures
            r == self@.id,
    {
        self.id
    }

    /// The user's email address.
    pub fn email(&self) -> (r: &String)
        ensures
            r@ == self@.email,
    {
        &self.email
    }

    /// Whether the identity provider has verified the email address.
    pub fn email_verified(&self) -> (r: bool)
        ensures
            r == self@.email_verified,
    {
        self.email_verified
    }
}

/// A profile the identity provider vouches for.
#[derive(Debug)]
pub struct Auth0User {
    pub sub: String,
    pub name: Option<String>,
    pub email: Option<String>,
    pub email_verified: bool,
    pub phone_number: Option<String>,
    pub phone_number_verified: bool,
}

/// The row an upsert writes for a verified profile.
#[derive(Debug)]
pub struct NewUser {
    pub auth0_id: String,
    pub name: Option<String>,
    pub email: Option<String>,
    pub email_verified: bool,
    pub phone_number: Option<String>,
    pub phone_number_verified: bool,
}

/// Maps a verified identity-provider profile to the row its upsert writes:
/// the provider's subject becomes the stable account key, every profile
/// field is carried over unchanged.
pub fn new_user_from_auth0(profile: Auth0User) -> (r: NewUser)
    ensures
        r.auth0_id@ == profile.sub@,
        r.name.deep_view() == profile.name.deep_view(),
        r.email.deep_view() == profile.email.deep_view(),
        r.email_verified == profile.email_verified,
        r.phone_number.deep_view() == profile.phone_number.deep_view(),
        r.phone_number_verified == profile.phone_number_verified,
{
    NewUser {
        auth0_id: profile.sub,
        name: profile.name,
        email: profile.email,
        email_verified: profile.email_verified,
        phone_number: profile.phone_number,
        phone_number_verified: profile.phone_number_verified,
    }
}

/// The form a new account signs up with; the password is hashed outside
/// before anything is stored.
#[derive(Debug)]
pub struct SignupInput {
    pub username: String,
    pub password: String,
    pub email: String,
}

/// The form a returning account logs in with.
#[derive(Debug)]
pub struct LoginWithPasswordInput {
    pub username: String,
    pub password: String,
}

} // verus!
