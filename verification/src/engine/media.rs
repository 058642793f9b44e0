//! Progress of chunked media downloads.
use vstd::prelude::*;

use crate::content::MediaManifest;
use crate::error::CoreError;
use crate::storage::{Contact, FeedItem};
use crate::text::{opt_view, owned, str_eq};

use super::p2p::{check_peer_id, peer_id_error};

verus! {

/// Where a media download stands.
#[derive(Debug, Clone, Copy, PartialEq, Eq, Structural)]
pub enum MediaFetchState {
    Idle,
    Fetching,
    Complete,
    Failed,
}

/// Progress of one media download.
#[derive(Debug, Clone)]
pub struct MediaFetchStatus {
    pub root_hash: String,
    pub state: MediaFetchState,
    pub chunks_done: u32,
    pub chunks_total: u32,
    pub transport: String,
    pub error: Option<String>,
}

/// Status of media whose chunks are all stored locally.
pub fn complete_fetch_status(root_hash: &str, manifest: &MediaManifest) -> (r: MediaFetchStatus)
    ensures
        r.root_hash@ == root_hash@,
        r.state == MediaFetchState::Complete,
        r.chunks_done == manifest.chunk_hashes@.len() as u32,
        r.chunks_total == manifest.chunk_hashes@.len() as u32,
        r.transport@ == "local"@,
        r.error is None,
{
    let n = manifest.chunk_hashes.len() as u32;
    MediaFetchStatus {
        root_hash: owned(root_hash),
        state: MediaFetchState::Complete,
        chunks_done: n,
        chunks_total: n,
        transport: owned("local"),
        error: None,
    }
}

/// Status of media with no download running: `chunks_done` of its chunks
/// are stored.
pub fn idle_fetch_status(root_hash: &str, manifest: &MediaManifest, chunks_done: u32) -> (r:
    MediaFetchStatus)
    ensures
        r.root_hash@ == root_hash@,
        r.state == MediaFetchState::Idle,
        r.chunks_done == chunks_done,
        r.chunks_total == manifest.chunk_hashes@.len() as u32,
        r.transport@ == "unknown"@,
        r.error is None,
{
    MediaFetchStatus {
        root_hash: owned(root_hash),
        state: MediaFetchState::Idle,
        chunks_done,
        chunks_total: manifest.chunk_hashes.len() as u32,
        transport: owned("unknown"),
        error: None,
    }
}

/// Status recorded while a download runs, ends, or fails.
pub fn progress_fetch_status(
    root_hash: &str,
    manifest: &MediaManifest,
    state: MediaFetchState,
    chunks_done: u32,
    transport: Option<String>,
    error: Option<String>,
) -> (r: MediaFetchStatus)
    ensures
        r.root_hash@ == root_hash@,
        r.state == state,
        r.chunks_done == chunks_done,
        r.chunks_total == manifest.chunk_hashes@.len() as u32,
        r.transport@ == match transport {
            Some(t) => t@,
            None => "unknown"@,
        },
        r.error == error,
{
    let transport = match transport {
        Some(t) => t,
        None => owned("unknown"),
    };
    MediaFetchStatus {
        root_hash: owned(root_hash),
        state,
        chunks_done,
        chunks_total: manifest.chunk_hashes.len() as u32,
        transport,
        error,
    }
}

fn copy_status(s: &MediaFetchStatus) -> (r: MediaFetchStatus)
    ensures
        r == *s,
{
    MediaFetchStatus {
        root_hash: s.root_hash.clone(),
        state: s.state,
        chunks_done: s.chunks_done,
        chunks_total: s.chunks_total,
        transport: s.transport.clone(),
        error: match &s.error {
            Some(e) => Some(e.clone()),
            None => None,
        },
    }
}

/// Status of a media download: an error when no manifest is stored; else
/// complete when every chunk is local, the running job's status when there
/// is one, or idle with the chunks held locally.
pub fn media_fetch_status(
    root_hash: &str,
    manifest: Option<&MediaManifest>,
    complete: bool,
    job: Option<&MediaFetchStatus>,
    local_chunks: u32,
) -> (r: Result<MediaFetchStatus, CoreError>)
    ensures
        match manifest {
            None => r matches Err(CoreError::ContentNotFound(h)) && h@ == root_hash@,
            Some(m) => r matches Ok(st) && if complete {
                st.state == MediaFetchState::Complete && st.root_hash@ == root_hash@
                    && st.chunks_done == m.chunk_hashes@.len() as u32 && st.chunks_total
                    == m.chunk_hashes@.len() as u32 && st.transport@ == "local"@ && st.error is None
            } else {
                match job {
                    Some(j) => st == *j,
                    None => st.state == MediaFetchState::Idle && st.root_hash@ == root_hash@
                        && st.chunks_done == local_chunks && st.chunks_total
                        == m.chunk_hashes@.len() as u32 && st.transport@ == "unknown"@
                        && st.error is None,
                }
            },
        },
{
    let m = match manifest {
        Some(m) => m,
        None => return Err(CoreError::ContentNotFound(owned(root_hash))),
    };
    if complete {
        return Ok(complete_fetch_status(root_hash, m));
    }
    match job {
        Some(j) => Ok(copy_status(j)),
        None => Ok(idle_fetch_status(root_hash, m, local_chunks)),
    }
}

/// What a request to fetch media does.
#[derive(Debug, Clone, Copy, PartialEq, Eq, Structural)]
pub enum MediaFetchStart {
    /// Every chunk is local: assemble and report.
    AssembleLocal,
    /// A download is already running: report it.
    AlreadyFetching,
    /// Start downloading from the author.
    Download,
}

/// Whether to assemble, keep the running download, or start one.
pub fn media_fetch_start(complete: bool, job_state: Option<MediaFetchState>) -> (r: MediaFetchStart)
    ensures
        r == if complete {
            MediaFetchStart::AssembleLocal
        } else if job_state == Some(MediaFetchState::Fetching) {
            MediaFetchStart::AlreadyFetching
        } else {
            MediaFetchStart::Download
        },
{
    if complete {
        MediaFetchStart::AssembleLocal
    } else {
        match job_state {
            Some(MediaFetchState::Fetching) => MediaFetchStart::AlreadyFetching,
            _ => MediaFetchStart::Download,
        }
    }
}

/// How chunks travel: over a direct connection to the author or through a
/// relay.
pub fn media_transport(direct: bool) -> (r: String)
    ensures
        r@ == if direct {
            "direct"@
        } else {
            "relay"@
        },
{
    if direct {
        owned("direct")
    } else {
        owned("relay")
    }
}

/// Indices of the chunks still to request, in order.
pub open spec fn chunks_to_fetch(present: Seq<bool>) -> Seq<u32>
    decreases present.len(),
{
    if present.len() == 0 {
        Seq::<u32>::empty()
    } else {
        let rest = chunks_to_fetch(present.drop_last());
        if present.last() {
            rest
        } else {
            rest.push((present.len() - 1) as u32)
        }
    }
}

/// The chunks a download requests: those not yet held locally.
pub fn missing_chunks(present: &[bool]) -> (r: Vec<u32>)
    requires
        present@.len() <= u32::MAX + 1,
    ensures
        r@ == chunks_to_fetch(present@),
{
    let mut out: Vec<u32> = Vec::new();
    let mut i: usize = 0;
    while i < present.len()
        invariant
            i <= present@.len(),
            present@.len() <= u32::MAX + 1,
            out@ == chunks_to_fetch(present@.take(i as int)),
        decreases present@.len() - i,
    {
        proof {
            assert(present@.take(i + 1).drop_last() =~= present@.take(i as int));
        }
        if !present[i] {
            out.push(i as u32);
        }
        i = i + 1;
    }
    proof {
        assert(present@.take(present@.len() as int) =~= present@);
    }
    out
}

/// Author of the media: the author of the first feed item that refers to it.
pub open spec fn media_author(items: Seq<FeedItem>, root_hash: Seq<char>) -> Option<Seq<char>>
    decreases items.len(),
{
    if items.len() == 0 {
        None
    } else if opt_view(items[0].media_ref) == Some(root_hash) {
        Some(items[0].author_id@)
    } else {
        media_author(items.drop_first(), root_hash)
    }
}

/// The contact an author id names: the first whose id or signing key it is.
pub open spec fn author_contact(contacts: Seq<Contact>, author: Seq<char>) -> Option<Contact>
    decreases contacts.len(),
{
    if contacts.len() == 0 {
        None
    } else if contacts[0].id@ == author || contacts[0].signing_pubkey@ == author {
        Some(contacts[0])
    } else {
        author_contact(contacts.drop_first(), author)
    }
}

fn find_media_author(items: &[FeedItem], root_hash: &str) -> (r: Option<String>)
    ensures
        opt_view(r) == media_author(items@, root_hash@),
{
    let mut i: usize = 0;
    assert(items@.subrange(0, items@.len() as int) =~= items@);
    while i < items.len()
        invariant
            i <= items@.len(),
            media_author(items@, root_hash@) == media_author(
                items@.subrange(i as int, items@.len() as int),
                root_hash@,
            ),
        decreases items@.len() - i,
    {
        let it = &items[i];
        let ghost rest = items@.subrange(i as int, items@.len() as int);
        assert(rest[0] == items@[i as int]);
        let refers = match &it.media_ref {
            Some(m) => str_eq(m.as_str(), root_hash),
            None => false,
        };
        if refers {
            return Some(it.author_id.clone());
        }
        proof {
            assert(rest.drop_first() =~= items@.subrange(i + 1, items@.len() as int));
        }
        i = i + 1;
    }
    None
}

/// Peer to fetch media from: the author's peer id, or why there is none.
pub fn media_author_peer(items: &[FeedItem], contacts: &[Contact], root_hash: &str) -> (r: Result<
    String,
    CoreError,
>)
    ensures
        match media_author(items@, root_hash@) {
            None => r matches Err(CoreError::ContentNotFound(h)) && h@ == root_hash@,
            Some(a) => match author_contact(contacts@, a) {
                None => r matches Err(CoreError::P2p(m)) && m@ == "author contact not found"@,
                Some(c) => match opt_view(c.peer_id) {
                    None => r matches Err(CoreError::P2p(m)) && m@ == "author is offline"@,
                    Some(p) => if peer_id_error(p) is None {
                        r matches Ok(s) && s@ == p
                    } else {
                        r matches Err(CoreError::P2p(m)) && m@ == "invalid author peer id"@
                    },
                },
            },
        },
{
    let author = match find_media_author(items, root_hash) {
        Some(a) => a,
        None => return Err(CoreError::ContentNotFound(owned(root_hash))),
    };
    let mut k: usize = 0;
    assert(contacts@.subrange(0, contacts@.len() as int) =~= contacts@);
    while k < contacts.len()
        invariant
            k <= contacts@.len(),
            media_author(items@, root_hash@) == Some(author@),
            author_contact(contacts@, author@) == author_contact(
                contacts@.subrange(k as int, contacts@.len() as int),
                author@,
            ),
        decreases contacts@.len() - k,
    {
        let c = &contacts[k];
        let ghost rest = contacts@.subrange(k as int, contacts@.len() as int);
        assert(rest[0] == contacts@[k as int]);
        if str_eq(c.id.as_str(), author.as_str()) || str_eq(c.signing_pubkey.as_str(), author.as_str()) {
            assert(author_contact(rest, author@) == Some(contacts@[k as int]));
            match &c.peer_id {
                Some(p) => {
                    let s = p.clone();
                    assert(opt_view(contacts@[k as int].peer_id) == Some(s@));
                    return match check_peer_id(s.as_str()) {
                        Ok(()) => Ok(s),
                        Err(_) => Err(CoreError::P2p(owned("invalid author peer id"))),
                    };
                },
                None => {
                    return Err(CoreError::P2p(owned("author is offline")));
                },
            }
        }
        proof {
            assert(rest.drop_first() =~= contacts@.subrange(k + 1, contacts@.len() as int));
        }
        k = k + 1;
    }
    Err(CoreError::P2p(owned("author contact not found")))
}

} // verus!
