//! Data model: stored credential records, the identity claims embedded in
//! tokens, and the plain request/response shapes around them.

use vstd::prelude::*;

verus! {

/// Mathematical value of a stored credential record.
pub struct UserView {
    pub id: int,
    pub first_name: Seq<char>,
    pub last_name: Seq<char>,
    pub email: Seq<char>,
    pub password: Seq<char>,
    pub created_at: int,
}

/// Mathematical value of the identity claims: the exposable subset of a
/// credential record, never holding the password hash.
pub struct UserDataView {
    pub id: int,
    pub first_name: Seq<char>,
    pub last_name: Seq<char>,
    pub email: Seq<char>,
    pub created_at: int,
}

/// A stored credential record. `password` holds the salted hash, never the
/// plaintext; `created_at` is a UNIX timestamp in seconds.
#[derive(Debug, Clone)]
pub struct User {
    pub id: i32,
    pub first_name: String,
    pub last_name: String,
    pub email: String,
    pub password: String,
    pub created_at: i64,
}

impl View for User {
    type V = UserView;

    open spec fn view(&self) -> UserView {
        UserView {
            id: self.id as int,
            first_name: self.first_name@,
            last_name: self.last_name@,
            email: self.email@,
            password: self.password@,
            created_at: self.created_at as int,
        }
    }
}

/// Identity claims: what a token embeds and what verification hands back.
#[derive(Debug, Clone, PartialEq)]
pub struct UserData {
    pub id: i32,
    pub first_name: String,
    pub last_name: String,
    pub email: String,
    pub created_at: i64,
}

impl View for UserData {
    type V = UserDataView;

    open spec fn view(&self) -> UserDataView {
        UserDataView {
            id: self.id as int,
            first_name: self.first_name@,
            last_name: self.last_name@,
            email: self.email@,
            created_at: self.created_at as int,
        }
    }
}

/// The claims a credential record gives rise to: every field but the
/// password hash.
pub open spec fn user_data_of(u: UserView) -> UserDataView {
    UserDataView {
        id: u.id,
        first_name: u.first_name,
        last_name: u.last_name,
        email: u.email,
        created_at: u.created_at,
    }
}

/// Builds the outward identity of a stored record: the claims carry every
/// field of the record except the password hash.
pub fn user_public(u: &User) -> (r: UserData)
    ensures
        r@ == user_data_of(u@),
{
    UserData {
        id: u.id,
        first_name: u.first_name.clone(),
        last_name: u.last_name.clone(),
        email: u.email.clone(),
        created_at: u.created_at,
    }
}

/// A signup request body.
#[derive(Debug, Clone)]
pub struct InputUser {
    pub first_name: String,
    pub last_name: String,
    pub email: String,
    pub password: String,
}

/// A record ready for insertion: the signup data with the password replaced
/// by its hash and a creation timestamp attached.
#[derive(Debug, Clone)]
pub struct NewUser {
    pub first_name: String,
    pub last_name: String,
    pub email: String,
    pub pwd: String,
    pub created_at: i64,
}

/// A login request body.
#[derive(Debug, Clone)]
pub struct LoginRequest {
    pub email: String,
    pub password: String,
}

/// The body returned on successful login or signup.
#[derive(Debug, Clone)]
pub struct TokenResponse {
    pub token: String,
}

} // verus!
