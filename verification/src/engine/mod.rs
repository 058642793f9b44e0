//! Engine-level logic: connection status, relay lists, dial planning,
//! presence, invite readiness, what posting and messaging record, and the
//! activity log.
use vstd::prelude::*;

use crate::content::DeliveryStatus;
use crate::storage::ProfilePhoto;
use crate::time::UtcTime;

pub mod p2p_status;
pub mod p2p;
pub mod relay_list;
pub mod relay_dial;
pub mod contacts;
pub mod invite;
pub mod port;
pub mod media;
pub mod activity;
pub mod status;
pub mod settings;
pub mod outbox;
pub mod publish;


verus! {

/// A photo published to the profile, with the content id it went out under.
#[derive(Debug, Clone)]
pub struct PublishPhotoResult {
    pub photo: ProfilePhoto,
    pub content_id: String,
}

/// A freshly issued invite, ready to share.
#[derive(Debug, Clone)]
pub struct InviteResponse {
    pub link: String,
    pub payload: String,
    pub safety_code: String,
    pub expires_at: UtcTime,
    pub display_name: String,
}

/// What a receiver sees of an invite before accepting it.
#[derive(Debug, Clone)]
pub struct InvitePreview {
    pub display_name: String,
    pub signing_pubkey: String,
    pub safety_code: String,
    pub expires_at: UtcTime,
    pub peer_id: Option<String>,
    pub multiaddrs: Vec<String>,
}

/// One message of a conversation, received or sent.
#[derive(Debug, Clone)]
pub struct ConversationMessage {
    pub content_id: String,
    pub body: String,
    pub at: UtcTime,
    pub expires_at: UtcTime,
    pub is_own: bool,
    pub delivery_status: Option<DeliveryStatus>,
}

} // verus!
pub mod feed;
pub mod archive;
