//! How core errors are answered over HTTP.
use vstd::prelude::*;

use crate::error::CoreError;

verus! {

/// Machine-readable kinds of errors the UI handles specially.
#[derive(Debug, Clone, Copy, PartialEq, Eq, Structural)]
pub enum ErrorCode {
    P2pNotStarted,
    RelayUnreachable,
    InviterOffline,
    FriendOffline,
}

/// HTTP status for an error: 503 when the node or relay is down, 504 when
/// the other side is offline; otherwise by kind: 400 for invite problems and
/// a missing identity, 409 for an existing profile, 404 for unknown
/// contacts and content, 500 for the rest.
pub open spec fn status_code(e: CoreError, code: Option<ErrorCode>) -> u16 {
    match code {
        Some(ErrorCode::P2pNotStarted) | Some(ErrorCode::RelayUnreachable) => 503,
        Some(ErrorCode::InviterOffline) | Some(ErrorCode::FriendOffline) => 504,
        None => match e {
            CoreError::Invite(_) => 400,
            CoreError::ProfileAlreadyExists => 409,
            CoreError::ContactNotFound(_) | CoreError::ContentNotFound(_) => 404,
            CoreError::IdentityNotInitialized => 400,
            _ => 500,
        },
    }
}

pub fn status_for_error(e: &CoreError, code: Option<ErrorCode>) -> (s: u16)
    ensures
        s == status_code(*e, code),
{
    match code {
        Some(ErrorCode::P2pNotStarted) | Some(ErrorCode::RelayUnreachable) => 503,
        Some(ErrorCode::InviterOffline) | Some(ErrorCode::FriendOffline) => 504,
        None => match e {
            CoreError::Invite(_) => 400,
            CoreError::ProfileAlreadyExists => 409,
            CoreError::ContactNotFound(_) | CoreError::ContentNotFound(_) => 404,
            CoreError::IdentityNotInitialized => 400,
            _ => 500,
        },
    }
}

} // verus!
