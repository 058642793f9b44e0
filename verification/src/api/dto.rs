//! Request bodies accepted by the local HTTP API.
use vstd::prelude::*;

verus! {

#[derive(Debug, Clone)]
pub struct InitIdentityRequest {
    pub display_name: String,
}

#[derive(Debug, Clone)]
pub struct UpdateProfileRequest {
    pub display_name: String,
    pub bio: Option<String>,
}

#[derive(Debug, Clone)]
pub struct CreateInviteRequest {
    pub web_origin: Option<String>,
}

#[derive(Debug, Clone)]
pub struct InviteInput {
    pub invite: String,
}

#[derive(Debug, Clone)]
pub struct AddContactRequest {
    pub id: String,
    pub display_name: String,
    pub signing_pubkey: String,
    pub encryption_pubkey: String,
}

#[derive(Debug, Clone)]
pub struct SendMessageRequest {
    pub recipient_id: String,
    pub body: String,
}

#[derive(Debug, Clone)]
pub struct DialRequest {
    pub multiaddr: String,
}

#[derive(Debug, Clone)]
pub struct FriendRequestBody {
    pub contact_id: String,
    pub multiaddr: String,
}

#[derive(Debug, Clone)]
pub struct RetryOutboxRequest {
    pub content_id: String,
    pub recipient_id: String,
}

#[derive(Debug, Clone)]
pub struct StartP2pRequest {
    pub listen_port: Option<u16>,
}

#[derive(Debug, Clone)]
pub struct CreatePostRequest {
    pub body: String,
    pub media_base64: Option<String>,
}

#[derive(Debug, Clone)]
pub struct AddCommentRequest {
    pub body: String,
}

#[derive(Debug, Clone)]
pub struct UploadPhotoRequest {
    pub data_base64: String,
    pub caption: Option<String>,
}

#[derive(Debug, Clone)]
pub struct UpdateSettingsRequest {
    pub feed_history_enabled: Option<bool>,
    pub p2p_listen_port: Option<u16>,
    pub relay_multiaddr: Option<String>,
    pub p2p_announce: Option<String>,
    pub web_origin: Option<String>,
}

/// Error body returned by the API.
#[derive(Debug, Clone)]
pub struct ApiError {
    pub error: String,
    pub code: Option<String>,
}

} // verus!
