//! Credential and session-authentication core for a user-management API.
//!
//! The library turns passwords into salted one-way hashes, turns verified
//! identities into signed, time-bounded bearer tokens, and decides for each
//! inbound request whether the caller is authenticated and who they are.

pub mod auth;
pub mod codec;
pub mod errors;
pub mod gate;
pub mod handlers;
pub mod models;
