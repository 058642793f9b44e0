//! Records the engine keeps about contacts and deliveries, as plain values.
use vstd::prelude::*;

use crate::content::{ContentType, DeliveryStatus};
use crate::time::UtcTime;

verus! {

/// How a contact can be reached right now.
#[derive(Debug, Clone, Copy, PartialEq, Eq, Structural)]
pub enum ConnectionState {
    Offline,
    Online,
    Reachable,
    Unreachable,
}

/// A friend.
#[derive(Debug, Clone)]
pub struct Contact {
    pub id: String,
    pub phone_hash: Option<String>,
    pub display_name: String,
    pub peer_id: Option<String>,
    pub signing_pubkey: String,
    pub encryption_pubkey: String,
    pub last_seen: Option<UtcTime>,
    pub connection_state: ConnectionState,
    pub multiaddrs: Vec<String>,
}

/// A queued delivery of one piece of content to one recipient.
#[derive(Debug, Clone)]
pub struct OutboxEntry {
    pub content_id: String,
    pub recipient_id: String,
    pub status: DeliveryStatus,
    pub expires_at: UtcTime,
    pub retry_count: u32,
    pub ciphertext: Vec<u8>,
    pub content_type: ContentType,
}

/// A received piece of content.
#[derive(Debug, Clone)]
pub struct InboxEntry {
    pub content_id: String,
    pub sender_id: String,
    pub body: String,
    pub media_ref: Option<String>,
    pub content_type: ContentType,
    pub received_at: UtcTime,
    pub expires_at: UtcTime,
}

} // verus!

verus! {

/// A photo on the local profile.
#[derive(Debug, Clone)]
pub struct ProfilePhoto {
    pub id: String,
    pub blob_hash: String,
    pub caption: Option<String>,
    pub content_id: Option<String>,
    pub sort_order: i32,
    pub created_at: UtcTime,
}

/// How many expired rows a sweep removed.
#[derive(Debug, Clone, Copy)]
pub struct PurgeReport {
    pub outbox: usize,
    pub inbox: usize,
    pub invites: usize,
}

impl PurgeReport {
    /// Whether the sweep removed anything.
    pub fn purged_anything(&self) -> (r: bool)
        ensures
            r == (self.outbox > 0 || self.inbox > 0 || self.invites > 0),
    {
        self.outbox > 0 || self.inbox > 0 || self.invites > 0
    }
}

} // verus!

verus! {

/// A message this device sent, as the sender keeps it.
#[derive(Debug, Clone)]
pub struct SentMessage {
    pub content_id: String,
    pub recipient_id: String,
    pub body: String,
    pub sent_at: UtcTime,
    pub expires_at: UtcTime,
    pub status: DeliveryStatus,
}

} // verus!

verus! {

/// A post written on this device.
#[derive(Debug, Clone)]
pub struct LocalPost {
    pub content_id: String,
    pub body: String,
    pub media_ref: Option<String>,
    pub created_at: UtcTime,
    pub expires_at: UtcTime,
}

/// One entry of the feed.
#[derive(Debug, Clone)]
pub struct FeedItem {
    pub content_id: String,
    pub author_id: String,
    pub author_name: String,
    pub body: String,
    pub media_ref: Option<String>,
    pub created_at: UtcTime,
    pub expires_at: UtcTime,
    pub is_own: bool,
    pub is_archived: bool,
    pub comment_count: usize,
}

} // verus!
