//! Errors of the core library.
use vstd::prelude::*;

use crate::text::{concat2, owned};

verus! {

/// Everything that can go wrong in the core. Errors raised by storage,
/// serialisation or I/O outside the library are carried as their message.
#[derive(Debug, Clone)]
pub enum CoreError {
    Database(String),
    Serialization(String),
    Crypto(String),
    IdentityNotInitialized,
    ProfileAlreadyExists,
    ContactNotFound(String),
    ContentNotFound(String),
    Invite(String),
    P2p(String),
    Io(String),
}

pub type CoreResult<T> = Result<T, CoreError>;

/// Human-readable text of an error.
pub open spec fn error_text(e: CoreError) -> Seq<char> {
    match e {
        CoreError::Database(m) => "database error: "@ + m@,
        CoreError::Serialization(m) => "serialization error: "@ + m@,
        CoreError::Crypto(m) => "crypto error: "@ + m@,
        CoreError::IdentityNotInitialized => "identity not initialized"@,
        CoreError::ProfileAlreadyExists => "a profile already exists on this device"@,
        CoreError::ContactNotFound(m) => "contact not found: "@ + m@,
        CoreError::ContentNotFound(m) => "content not found: "@ + m@,
        CoreError::Invite(m) => "invite error: "@ + m@,
        CoreError::P2p(m) => "p2p error: "@ + m@,
        CoreError::Io(m) => "io error: "@ + m@,
    }
}

impl CoreError {
    /// The error's message, as its `Display` text reads.
    pub fn message(&self) -> (r: String)
        ensures
            r@ == error_text(*self),
    {
        match self {
            CoreError::Database(m) => concat2("database error: ", m.as_str()),
            CoreError::Serialization(m) => concat2("serialization error: ", m.as_str()),
            CoreError::Crypto(m) => concat2("crypto error: ", m.as_str()),
            CoreError::IdentityNotInitialized => owned("identity not initialized"),
            CoreError::ProfileAlreadyExists => owned("a profile already exists on this device"),
            CoreError::ContactNotFound(m) => concat2("contact not found: ", m.as_str()),
            CoreError::ContentNotFound(m) => concat2("content not found: ", m.as_str()),
            CoreError::Invite(m) => concat2("invite error: ", m.as_str()),
            CoreError::P2p(m) => concat2("p2p error: ", m.as_str()),
            CoreError::Io(m) => concat2("io error: ", m.as_str()),
        }
    }
}

} // verus!
