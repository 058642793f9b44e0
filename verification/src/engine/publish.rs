//! What posting, messaging and commenting record before anything goes out:
//! the local copy of a post, the sender's copy of a message, and one
//! pending delivery per recipient.
use vstd::prelude::*;

use crate::content::{ContentEnvelope, ContentType, DeliveryStatus};
use crate::error::CoreError;
use crate::identity::POST_TTL_SECS;
use crate::storage::{Contact, LocalPost, OutboxEntry, SentMessage};
use crate::text::{opt_view, owned, trim_seq};
use crate::time::{plus_seconds, representable, UtcTime, MAX_TIMESTAMP};

use super::feed::comment_body;

verus! {

/// `e` queues `env` for `recipient_id` under `content_id`: pending, not yet
/// retried, with the envelope's ciphertext and expiry.
pub open spec fn is_pending_entry(
    e: OutboxEntry,
    content_id: Seq<char>,
    recipient_id: Seq<char>,
    content_type: ContentType,
    env: ContentEnvelope,
) -> bool {
    &&& e.content_id@ == content_id
    &&& e.recipient_id@ == recipient_id
    &&& e.status == DeliveryStatus::Pending
    &&& e.expires_at == env.expires_at
    &&& e.retry_count == 0
    &&& e.ciphertext@ == env.ciphertext@
    &&& e.content_type == content_type
}

fn copy_bytes(v: &Vec<u8>) -> (r: Vec<u8>)
    ensures
        r@ == v@,
{
    let r = v.clone();
    assert(r@ =~= v@);
    r
}

/// The pending delivery of `envelope` to `recipient_id`.
pub fn pending_outbox_entry(
    content_id: &str,
    recipient_id: &str,
    content_type: ContentType,
    envelope: &ContentEnvelope,
) -> (e: OutboxEntry)
    ensures
        is_pending_entry(e, content_id@, recipient_id@, content_type, *envelope),
{
    OutboxEntry {
        content_id: owned(content_id),
        recipient_id: owned(recipient_id),
        status: DeliveryStatus::Pending,
        expires_at: envelope.expires_at,
        retry_count: 0,
        ciphertext: copy_bytes(&envelope.ciphertext),
        content_type,
    }
}

/// One pending delivery of a post per contact, all under the post's
/// content id; `envelopes[i]` is the copy sealed for `contacts[i]`.
pub fn post_outbox_entries(
    content_id: &str,
    contacts: &[Contact],
    envelopes: &[ContentEnvelope],
) -> (r: Vec<OutboxEntry>)
    requires
        contacts.len() == envelopes.len(),
    ensures
        r.len() == contacts.len(),
        forall|i: int|
            0 <= i < r.len() ==> is_pending_entry(
                #[trigger] r@[i],
                content_id@,
                contacts@[i].id@,
                ContentType::Post,
                envelopes@[i],
            ),
{
    let mut r: Vec<OutboxEntry> = Vec::new();
    let mut i: usize = 0;
    while i < contacts.len()
        invariant
            i <= contacts.len(),
            contacts.len() == envelopes.len(),
            r.len() == i,
            forall|k: int|
                0 <= k < i ==> is_pending_entry(
                    #[trigger] r@[k],
                    content_id@,
                    contacts@[k].id@,
                    ContentType::Post,
                    envelopes@[k],
                ),
        decreases contacts.len() - i,
    {
        let e = pending_outbox_entry(
            content_id,
            contacts[i].id.as_str(),
            ContentType::Post,
            &envelopes[i],
        );
        r.push(e);
        i = i + 1;
    }
    r
}

/// One pending delivery of a comment per contact; each goes out under the
/// id of the envelope sealed for that contact.
pub fn comment_outbox_entries(contacts: &[Contact], envelopes: &[ContentEnvelope]) -> (r: Vec<
    OutboxEntry,
>)
    requires
        contacts.len() == envelopes.len(),
    ensures
        r.len() == contacts.len(),
        forall|i: int|
            0 <= i < r.len() ==> is_pending_entry(
                #[trigger] r@[i],
                envelopes@[i].id@,
                contacts@[i].id@,
                ContentType::Comment,
                envelopes@[i],
            ),
{
    let mut r: Vec<OutboxEntry> = Vec::new();
    let mut i: usize = 0;
    while i < contacts.len()
        invariant
            i <= contacts.len(),
            contacts.len() == envelopes.len(),
            r.len() == i,
            forall|k: int|
                0 <= k < i ==> is_pending_entry(
                    #[trigger] r@[k],
                    envelopes@[k].id@,
                    contacts@[k].id@,
                    ContentType::Comment,
                    envelopes@[k],
                ),
        decreases contacts.len() - i,
    {
        let e = pending_outbox_entry(
            envelopes[i].id.as_str(),
            contacts[i].id.as_str(),
            ContentType::Comment,
            &envelopes[i],
        );
        r.push(e);
        i = i + 1;
    }
    r
}

/// The local copy of a new post: it lives for `POST_TTL_SECS` from `now`.
/// An identity without a display name cannot post.
pub fn local_post_record(
    display_name: &str,
    content_id: &str,
    body: &str,
    media_ref: Option<&str>,
    now: UtcTime,
) -> (r: Result<LocalPost, CoreError>)
    requires
        representable(now),
        now.secs + POST_TTL_SECS <= MAX_TIMESTAMP,
    ensures
        display_name@.len() == 0 <==> r matches Err(CoreError::IdentityNotInitialized),
        display_name@.len() > 0 ==> (r matches Ok(p) && {
            &&& p.content_id@ == content_id@
            &&& p.body@ == body@
            &&& opt_view(p.media_ref) == match media_ref {
                Some(m) => Some(m@),
                None => None::<Seq<char>>,
            }
            &&& p.created_at == now
            &&& p.expires_at.secs == now.secs + POST_TTL_SECS
            &&& p.expires_at.nanos == now.nanos
        }),
{
    if display_name.is_empty() {
        return Err(CoreError::IdentityNotInitialized);
    }
    let media = match media_ref {
        Some(m) => Some(owned(m)),
        None => None,
    };
    Ok(LocalPost {
        content_id: owned(content_id),
        body: owned(body),
        media_ref: media,
        created_at: now,
        expires_at: plus_seconds(now, POST_TTL_SECS),
    })
}

/// The sender's copy of a message sealed in `envelope`: pending, stamped
/// with the envelope's id and times.
pub fn sent_message_record(envelope: &ContentEnvelope, recipient_id: &str, body: &str) -> (r:
    SentMessage)
    ensures
        r.content_id@ == envelope.id@,
        r.recipient_id@ == recipient_id@,
        r.body@ == body@,
        r.sent_at == envelope.created_at,
        r.expires_at == envelope.expires_at,
        r.status == DeliveryStatus::Pending,
{
    SentMessage {
        content_id: envelope.id.clone(),
        recipient_id: owned(recipient_id),
        body: owned(body),
        sent_at: envelope.created_at,
        expires_at: envelope.expires_at,
        status: DeliveryStatus::Pending,
    }
}

/// Where a comment on a profile item goes.
#[derive(Debug, Clone)]
pub enum CommentRoute {
    /// The item is this device's own: the comment is only stored here.
    OwnItem,
    /// The item belongs to the contact with this id: the comment is
    /// delivered to that contact alone.
    Owner(String),
}

/// The trimmed body and the route of a comment on a profile item. A blank
/// body and a nameless identity are refused as for any comment; a comment
/// on a friend's item needs the owner's contact id.
pub fn profile_comment_route(
    body: &str,
    display_name: &str,
    own_item: bool,
    owner_contact_id: Option<&str>,
) -> (r: Result<(String, CommentRoute), CoreError>)
    ensures
        trim_seq(body@).len() == 0 ==> (r matches Err(CoreError::Invite(m)) && m@
            == "comment cannot be empty"@),
        trim_seq(body@).len() > 0 && display_name@.len() == 0 ==> r matches Err(
            CoreError::IdentityNotInitialized,
        ),
        trim_seq(body@).len() > 0 && display_name@.len() > 0 ==> {
            if own_item {
                (r matches Ok((t, CommentRoute::OwnItem)) && t@ == trim_seq(body@))
            } else {
                match owner_contact_id {
                    Some(o) => (r matches Ok((t, CommentRoute::Owner(id))) && t@ == trim_seq(
                        body@,
                    ) && id@ == o@),
                    None => (r matches Err(CoreError::Invite(m)) && m@
                        == "owner_contact_id required for friend profile comments"@),
                }
            }
        },
{
    let b = match comment_body(body, display_name) {
        Ok(b) => b,
        Err(e) => {
            return Err(e);
        },
    };
    if own_item {
        return Ok((b, CommentRoute::OwnItem));
    }
    match owner_contact_id {
        Some(o) => Ok((b, CommentRoute::Owner(owned(o)))),
        None => Err(
            CoreError::Invite(owned("owner_contact_id required for friend profile comments")),
        ),
    }
}

} // verus!
