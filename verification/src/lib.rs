//! Transport-free core of a client for a remote assessment platform.
//!
//! The crate is organised sans-io: every decision the client makes —
//! decoding the platform's relational JSON payloads, validating the
//! session credential, extracting the anti-forgery token, planning the
//! clear/upload/submit sequence — is ordinary verified code over plain
//! values.  The caller performs the HTTP exchanges and hands the
//! responses in as [`json::JsonValue`] trees and status codes.

use vstd::prelude::*;

pub mod client;
pub mod decode;
pub mod error;
pub mod graph;
pub mod image;
pub mod json;
pub mod outside;
pub mod score;
pub mod submit;
pub mod text;

verus! {

/// How a listing is rendered for the user; only `Plain` is produced by
/// this crate, the other two are rendered by the caller.
#[derive(Clone, Copy, Debug, PartialEq, Eq, Structural)]
pub enum OutputFormat {
    Pretty,
    Plain,
    Json,
}

/// A stored credential pair used to obtain a session token.
#[derive(Clone, Debug)]
pub struct LoginDetails {
    email: String,
    password: String,
}

impl LoginDetails {
    /// The stored email address.
    pub closed spec fn spec_email(&self) -> Seq<char> {
        self.email@
    }

    /// The stored password.
    pub closed spec fn spec_password(&self) -> Seq<char> {
        self.password@
    }

    pub fn new(email: String, password: String) -> (r: LoginDetails)
        ensures
            r.spec_email() == email@,
            r.spec_password() == password@,
    {
        LoginDetails { email, password }
    }

    pub fn email(&self) -> (r: &String)
        ensures
            r@ == self.spec_email(),
    {
        &self.email
    }

    pub fn password(&self) -> (r: &String)
        ensures
            r@ == self.spec_password(),
    {
        &self.password
    }
}

} // verus!
