//! Checks on profile and archive requests: names, uploads split into
//! chunks, and visits to a friend's profile.
use vstd::prelude::*;

use crate::error::CoreError;
use crate::storage::{Contact, ProfilePhoto};
use crate::time::UtcTime;
use crate::text::{concat2, concat3, decimal, decimal_string, opt_view, owned, trim, trim_seq, views};

use super::contacts::is_connected;
use super::p2p::{check_peer_id, peer_id_error};

verus! {

broadcast use crate::text::group_views;

/// The trimmed name, or the given error when it is blank.
fn non_blank_name(name: &str, blank_msg: &str) -> (r: Result<String, CoreError>)
    ensures
        trim_seq(name@).len() == 0 ==> (r matches Err(CoreError::Invite(m)) && m@ == blank_msg@),
        trim_seq(name@).len() > 0 ==> (r matches Ok(n) && n@ == trim_seq(name@)),
{
    let t = trim(name);
    if t.as_str().is_empty() {
        Err(CoreError::Invite(owned(blank_msg)))
    } else {
        Ok(t)
    }
}

/// Name of a new archive folder: trimmed, and not blank.
pub fn archive_folder_name(name: &str) -> (r: Result<String, CoreError>)
    ensures
        trim_seq(name@).len() == 0 ==> (r matches Err(CoreError::Invite(m)) && m@
            == "folder name cannot be empty"@),
        trim_seq(name@).len() > 0 ==> (r matches Ok(n) && n@ == trim_seq(name@)),
{
    non_blank_name(name, "folder name cannot be empty")
}

/// Name of a new archive entry: trimmed, and not blank.
pub fn archive_entry_name(name: &str) -> (r: Result<String, CoreError>)
    ensures
        trim_seq(name@).len() == 0 ==> (r matches Err(CoreError::Invite(m)) && m@
            == "entry name cannot be empty"@),
        trim_seq(name@).len() > 0 ==> (r matches Ok(n) && n@ == trim_seq(name@)),
{
    non_blank_name(name, "entry name cannot be empty")
}

/// Number of chunks of `chunk_size` bytes that hold `total_bytes`, as a
/// 32-bit count (the count wraps past `u32::MAX`, as the cast does).
pub open spec fn chunk_count(total_bytes: u64, chunk_size: u32) -> u32 {
    ((total_bytes + chunk_size - 1) / (chunk_size as int)) as u32
}

/// The trimmed name and chunk count of a new upload; errors for a blank
/// name and for an empty file.
pub fn plan_archive_upload(name: &str, total_bytes: u64, chunk_size: u32) -> (r: Result<
    (String, u32),
    CoreError,
>)
    requires
        chunk_size > 0,
    ensures
        trim_seq(name@).len() == 0 ==> (r matches Err(CoreError::Invite(m)) && m@
            == "entry name cannot be empty"@),
        trim_seq(name@).len() > 0 && total_bytes == 0 ==> (r matches Err(CoreError::Invite(m))
            && m@ == "file cannot be empty"@),
        trim_seq(name@).len() > 0 && total_bytes > 0 ==> (r matches Ok((n, c)) && n@ == trim_seq(
            name@,
        ) && c == chunk_count(total_bytes, chunk_size)),
{
    let n = archive_entry_name(name)?;
    if total_bytes == 0 {
        return Err(CoreError::Invite(owned("file cannot be empty")));
    }
    let size = chunk_size as u64;
    let q = total_bytes / size;
    let chunks = if total_bytes % size == 0 {
        q
    } else {
        assert(q < u64::MAX) by (nonlinear_arith)
            requires
                size > 0,
                total_bytes % size != 0,
                q == total_bytes / size,
                total_bytes <= u64::MAX,
        ;
        q + 1
    };
    proof {
        assert(chunks == (total_bytes + chunk_size - 1) / (chunk_size as int)) by (nonlinear_arith)
            requires
                size == chunk_size,
                size > 0,
                q == total_bytes / size,
                chunks == if total_bytes % size == 0 {
                    q as int
                } else {
                    q + 1
                },
        ;
    }
    Ok((n, #[verifier::truncate] (chunks as u32)))
}

/// Message for a chunk index past the end of an upload.
pub open spec fn chunk_range_msg(index: u32, chunks_total: u32) -> Seq<char> {
    "chunk index "@ + decimal(index as nat) + " out of range (0.."@ + decimal(chunks_total as nat)
        + ")"@
}

/// Whether a chunk can be stored: the upload must still be open and the
/// index within it.
pub fn check_upload_chunk(completed: bool, index: u32, chunks_total: u32) -> (r: Result<
    (),
    CoreError,
>)
    ensures
        completed ==> (r matches Err(CoreError::Invite(m)) && m@ == "upload already completed"@),
        !completed && index >= chunks_total ==> (r matches Err(CoreError::Invite(m)) && m@
            == chunk_range_msg(index, chunks_total)),
        !completed && index < chunks_total ==> r is Ok,
{
    if completed {
        return Err(CoreError::Invite(owned("upload already completed")));
    }
    if index >= chunks_total {
        let head = concat3("chunk index ", decimal_string(index as usize).as_str(), " out of range (0..");
        let msg = concat3(head.as_str(), decimal_string(chunks_total as usize).as_str(), ")");
        return Err(CoreError::Invite(msg));
    }
    Ok(())
}

/// A new item appended to the profile: it sorts after the `existing`
/// items already there (the count taken as an `i32`, as the store keeps
/// it), and is stamped with `now`.
pub fn profile_item_record(
    id: &str,
    blob_hash: &str,
    caption: Option<&str>,
    content_id: Option<&str>,
    existing: usize,
    now: UtcTime,
) -> (p: ProfilePhoto)
    ensures
        p.id@ == id@,
        p.blob_hash@ == blob_hash@,
        opt_view(p.caption) == match caption {
            Some(c) => Some(c@),
            None => None::<Seq<char>>,
        },
        opt_view(p.content_id) == match content_id {
            Some(c) => Some(c@),
            None => None::<Seq<char>>,
        },
        p.sort_order == existing as i32,
        p.created_at == now,
{
    ProfilePhoto {
        id: owned(id),
        blob_hash: owned(blob_hash),
        caption: match caption {
            Some(c) => Some(owned(c)),
            None => None,
        },
        content_id: match content_id {
            Some(c) => Some(owned(c)),
            None => None,
        },
        sort_order: existing as i32,
        created_at: now,
    }
}

/// The error for deleting a profile photo that is not there.
pub fn missing_profile_photo(item_id: &str) -> (e: CoreError)
    ensures
        e matches CoreError::ContentNotFound(m) && m@ == "profile photo "@ + item_id@,
{
    CoreError::ContentNotFound(concat2("profile photo ", item_id))
}

/// Outcome of choosing the peer for a visit to a friend's profile.
pub open spec fn profile_peer_outcome(
    contact_id: Seq<char>,
    peer_id: Option<Seq<char>>,
    connected: Seq<Seq<char>>,
) -> Result<Seq<char>, Seq<char>> {
    match peer_id {
        None => Err("friend "@ + contact_id + " has no peer id (offline)"@),
        Some(p) => match peer_id_error(p) {
            Some(e) => Err("invalid peer id: "@ + e),
            None => if connected.contains(p) {
                Ok(p)
            } else {
                Err("friend "@ + contact_id + " is offline"@)
            },
        },
    }
}

/// The peer to ask for a friend's profile: the contact's peer id when it
/// is a valid peer id with a live session; otherwise a P2P error.
pub fn friend_profile_peer(contact_id: &str, contact: &Contact, connected: &[String]) -> (r:
    Result<String, CoreError>)
    ensures
        match profile_peer_outcome(contact_id@, opt_view(contact.peer_id), views(connected@)) {
            Ok(p) => r matches Ok(s) && s@ == p,
            Err(m) => r matches Err(CoreError::P2p(e)) && e@ == m,
        },
{
    let peer = match &contact.peer_id {
        Some(p) => p,
        None => {
            return Err(CoreError::P2p(concat3("friend ", contact_id, " has no peer id (offline)")));
        },
    };
    match check_peer_id(peer.as_str()) {
        Ok(()) => {},
        Err(e) => return Err(CoreError::P2p(concat2("invalid peer id: ", e.as_str()))),
    }
    if !is_connected(peer, connected) {
        return Err(CoreError::P2p(concat3("friend ", contact_id, " is offline")));
    }
    Ok(peer.clone())
}

/// Blobs fetched on a profile visit: each item's blob, then the avatar.
pub fn profile_blob_hashes(item_hashes: Vec<String>, avatar: Option<String>) -> (r: Vec<String>)
    ensures
        r@ == match avatar {
            Some(a) => item_hashes@.push(a),
            None => item_hashes@,
        },
{
    let mut hashes = item_hashes;
    if let Some(a) = avatar {
        hashes.push(a);
    }
    hashes
}

} // verus!
