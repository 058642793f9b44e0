//! Content kinds, payloads and delivery states.
use vstd::prelude::*;
use vstd::utf8::encode_utf8;

use crate::identity::{MESSAGE_TTL_SECS, POST_TTL_SECS};
use crate::json::{json_byte_list, json_str, push_json_byte_list, push_json_str, push_raw};
use crate::text::utf8_bytes;
use crate::time::{now_utc, plus_seconds, representable, rfc3339, rfc3339_text, UtcTime, MAX_TIMESTAMP};
use crate::uid::{is_uuid_v4_text, new_uuid_v4};

verus! {

/// What a content envelope carries.
#[derive(Debug, Clone, Copy, PartialEq, Eq, Structural)]
pub enum ContentType {
    Message,
    Post,
    Comment,
}

/// Where a queued delivery stands.
#[derive(Debug, Clone, Copy, PartialEq, Eq, Structural)]
pub enum DeliveryStatus {
    Pending,
    Sent,
    Failed,
    Delivered,
    Expired,
}

} // verus!

verus! {

/// Name of a content type, as sent to the UI.
pub open spec fn content_type_name(t: ContentType) -> Seq<char> {
    match t {
        ContentType::Message => "message"@,
        ContentType::Post => "post"@,
        ContentType::Comment => "comment"@,
    }
}

pub fn content_type_to_str(content_type: ContentType) -> (s: &'static str)
    ensures
        s@ == content_type_name(content_type),
{
    match content_type {
        ContentType::Message => "message",
        ContentType::Post => "post",
        ContentType::Comment => "comment",
    }
}

/// A direct message.
#[derive(Debug, Clone)]
pub struct MessagePayload {
    pub body: String,
    pub thread_id: String,
}

/// Kind of attached media.
#[derive(Debug, Clone, Copy, PartialEq, Eq, Structural)]
pub enum MediaKind {
    Photo,
    Video,
}

/// Chunked video metadata (512 KiB chunks). `root_hash` content-addresses
/// the manifest body.
#[derive(Debug, Clone)]
pub struct MediaManifest {
    pub root_hash: String,
    pub kind: MediaKind,
    pub mime: String,
    pub total_bytes: u64,
    pub chunk_size: u32,
    pub chunk_hashes: Vec<String>,
    pub thumb_hash: String,
    pub duration_ms: u32,
}

/// A feed post.
#[derive(Debug, Clone)]
pub struct PostPayload {
    pub body: String,
    pub media_ref: Option<String>,
    pub media_kind: Option<MediaKind>,
    pub thumb_ref: Option<String>,
    pub manifest: Option<MediaManifest>,
}

/// A comment on a post.
#[derive(Debug, Clone)]
pub struct CommentPayload {
    pub post_id: String,
    pub body: String,
}

/// A signed, encrypted piece of content as it travels between devices.
#[derive(Debug, Clone)]
pub struct ContentEnvelope {
    pub id: String,
    pub author_signing_pubkey: String,
    pub author_encryption_pubkey: String,
    pub content_type: ContentType,
    pub created_at: UtcTime,
    pub expires_at: UtcTime,
    pub ciphertext: Vec<u8>,
    pub signature: Vec<u8>,
}

/// How long content of a kind lives: a week for every kind.
pub open spec fn ttl_of(t: ContentType) -> i64 {
    match t {
        ContentType::Message => MESSAGE_TTL_SECS,
        ContentType::Post => POST_TTL_SECS,
        ContentType::Comment => POST_TTL_SECS,
    }
}

/// The envelope made at `now` with id `id`.
pub open spec fn enveloped(
    e: ContentEnvelope,
    id: Seq<char>,
    author_signing_pubkey: Seq<char>,
    author_encryption_pubkey: Seq<char>,
    content_type: ContentType,
    now: UtcTime,
    ciphertext: Seq<u8>,
    signature: Seq<u8>,
) -> bool {
    &&& e.id@ == id
    &&& e.author_signing_pubkey@ == author_signing_pubkey
    &&& e.author_encryption_pubkey@ == author_encryption_pubkey
    &&& e.content_type == content_type
    &&& e.created_at == now
    &&& e.expires_at == (UtcTime { secs: (now.secs + ttl_of(content_type)) as i64, nanos: now.nanos })
    &&& e.ciphertext@ == ciphertext
    &&& e.signature@ == signature
}

/// The JSON text an envelope's signature covers.
pub open spec fn envelope_signing_text(e: ContentEnvelope) -> Seq<char> {
    "{\"id\":"@ + json_str(e.id@) + ",\"author_signing_pubkey\":"@ + json_str(
        e.author_signing_pubkey@,
    ) + ",\"author_encryption_pubkey\":"@ + json_str(e.author_encryption_pubkey@)
        + ",\"content_type\":"@ + json_str(content_type_name(e.content_type))
        + ",\"created_at\":"@ + json_str(rfc3339(e.created_at.secs, e.created_at.nanos))
        + ",\"expires_at\":"@ + json_str(rfc3339(e.expires_at.secs, e.expires_at.nanos))
        + ",\"ciphertext\":"@ + json_byte_list(e.ciphertext@) + "}"@
}

fn ttl_secs(t: ContentType) -> (r: i64)
    ensures
        r == ttl_of(t),
{
    match t {
        ContentType::Message => MESSAGE_TTL_SECS,
        ContentType::Post => POST_TTL_SECS,
        ContentType::Comment => POST_TTL_SECS,
    }
}

impl ContentEnvelope {
    /// An envelope of the given kind made at `now` with id `id`.
    pub fn new_at(
        id: String,
        author_signing_pubkey: String,
        author_encryption_pubkey: String,
        content_type: ContentType,
        now: UtcTime,
        ciphertext: Vec<u8>,
        signature: Vec<u8>,
    ) -> (e: Self)
        requires
            representable(now),
            now.secs + ttl_of(content_type) <= MAX_TIMESTAMP,
        ensures
            enveloped(
                e,
                id@,
                author_signing_pubkey@,
                author_encryption_pubkey@,
                content_type,
                now,
                ciphertext@,
                signature@,
            ),
            representable(e.created_at) && representable(e.expires_at),
    {
        let ttl = ttl_secs(content_type);
        ContentEnvelope {
            id,
            author_signing_pubkey,
            author_encryption_pubkey,
            content_type,
            created_at: now,
            expires_at: plus_seconds(now, ttl),
            ciphertext,
            signature,
        }
    }

    /// An envelope of the given kind made at `now` with id `id`, or `None`
    /// when its expiry would lie past the last instant chrono can hold.
    pub fn new_checked_at(
        id: String,
        author_signing_pubkey: String,
        author_encryption_pubkey: String,
        content_type: ContentType,
        now: UtcTime,
        ciphertext: Vec<u8>,
        signature: Vec<u8>,
    ) -> (r: Option<Self>)
        requires
            representable(now),
        ensures
            r is None <==> now.secs + ttl_of(content_type) > MAX_TIMESTAMP,
            r matches Some(e) ==> enveloped(
                e,
                id@,
                author_signing_pubkey@,
                author_encryption_pubkey@,
                content_type,
                now,
                ciphertext@,
                signature@,
            ) && representable(e.expires_at),
    {
        if now.secs > MAX_TIMESTAMP - ttl_secs(content_type) {
            return None;
        }
        Some(
            Self::new_at(
                id,
                author_signing_pubkey,
                author_encryption_pubkey,
                content_type,
                now,
                ciphertext,
                signature,
            ),
        )
    }

    /// An envelope made at the instant the clock reads, with a fresh random
    /// id: `new_checked_at` applied to that instant and that id. Which
    /// instant and which id come back is the clock's and the random
    /// generator's; so is whether the instant lies within the envelope's
    /// lifetime of the last one chrono can hold, the one case of `None`.
    fn new_now(
        author_signing_pubkey: String,
        author_encryption_pubkey: String,
        content_type: ContentType,
        ciphertext: Vec<u8>,
        signature: Vec<u8>,
    ) -> (r: Option<Self>)
        ensures
            r matches Some(e) ==> is_uuid_v4_text(e.id@) && representable(e.created_at)
                && representable(e.expires_at) && enveloped(
                e,
                e.id@,
                author_signing_pubkey@,
                author_encryption_pubkey@,
                content_type,
                e.created_at,
                ciphertext@,
                signature@,
            ),
    {
        let now = now_utc();
        let id = new_uuid_v4();
        Self::new_checked_at(
            id,
            author_signing_pubkey,
            author_encryption_pubkey,
            content_type,
            now,
            ciphertext,
            signature,
        )
    }

    /// A direct message made now with a fresh random id, living a week.
    /// `None` only when the clock reads within a week of the last instant
    /// chrono can hold.
    pub fn new_message(
        author_signing_pubkey: String,
        author_encryption_pubkey: String,
        ciphertext: Vec<u8>,
        signature: Vec<u8>,
    ) -> (r: Option<Self>)
        ensures
            r matches Some(e) ==> is_uuid_v4_text(e.id@) && representable(e.created_at)
                && representable(e.expires_at) && enveloped(
                e,
                e.id@,
                author_signing_pubkey@,
                author_encryption_pubkey@,
                ContentType::Message,
                e.created_at,
                ciphertext@,
                signature@,
            ),
    {
        Self::new_now(
            author_signing_pubkey,
            author_encryption_pubkey,
            ContentType::Message,
            ciphertext,
            signature,
        )
    }

    /// A post made now with a fresh random id, living a week; `None` only
    /// when the clock reads within a week of the last instant chrono can hold.
    pub fn new_post(
        author_signing_pubkey: String,
        author_encryption_pubkey: String,
        ciphertext: Vec<u8>,
        signature: Vec<u8>,
    ) -> (r: Option<Self>)
        ensures
            r matches Some(e) ==> is_uuid_v4_text(e.id@) && representable(e.created_at)
                && representable(e.expires_at) && enveloped(
                e,
                e.id@,
                author_signing_pubkey@,
                author_encryption_pubkey@,
                ContentType::Post,
                e.created_at,
                ciphertext@,
                signature@,
            ),
    {
        Self::new_now(
            author_signing_pubkey,
            author_encryption_pubkey,
            ContentType::Post,
            ciphertext,
            signature,
        )
    }

    /// A comment made now with a fresh random id, living a week; `None`
    /// only when the clock reads within a week of the last instant chrono can
    /// hold.
    pub fn new_comment(
        author_signing_pubkey: String,
        author_encryption_pubkey: String,
        ciphertext: Vec<u8>,
        signature: Vec<u8>,
    ) -> (r: Option<Self>)
        ensures
            r matches Some(e) ==> is_uuid_v4_text(e.id@) && representable(e.created_at)
                && representable(e.expires_at) && enveloped(
                e,
                e.id@,
                author_signing_pubkey@,
                author_encryption_pubkey@,
                ContentType::Comment,
                e.created_at,
                ciphertext@,
                signature@,
            ),
    {
        Self::new_now(
            author_signing_pubkey,
            author_encryption_pubkey,
            ContentType::Comment,
            ciphertext,
            signature,
        )
    }

    /// UTF-8 bytes of the JSON text the signature covers.
    pub fn signing_bytes(&self) -> (r: Vec<u8>)
        requires
            representable(self.created_at),
            representable(self.expires_at),
        ensures
            r@ == encode_utf8(envelope_signing_text(*self)),
    {
        let mut out: Vec<char> = Vec::new();
        let ghost start = out@;
        push_raw(&mut out, "{\"id\":");
        push_json_str(&mut out, self.id.as_str());
        push_raw(&mut out, ",\"author_signing_pubkey\":");
        push_json_str(&mut out, self.author_signing_pubkey.as_str());
        push_raw(&mut out, ",\"author_encryption_pubkey\":");
        push_json_str(&mut out, self.author_encryption_pubkey.as_str());
        push_raw(&mut out, ",\"content_type\":");
        push_json_str(&mut out, content_type_to_str(self.content_type));
        push_raw(&mut out, ",\"created_at\":");
        let c = rfc3339_text(self.created_at);
        push_json_str(&mut out, c.as_str());
        push_raw(&mut out, ",\"expires_at\":");
        let x = rfc3339_text(self.expires_at);
        push_json_str(&mut out, x.as_str());
        push_raw(&mut out, ",\"ciphertext\":");
        push_json_byte_list(&mut out, self.ciphertext.as_slice());
        push_raw(&mut out, "}");
        assert(out@ =~= envelope_signing_text(*self));
        utf8_bytes(&out)
    }
}


} // verus!
