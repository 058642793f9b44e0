//! Outbox decisions: which queued deliveries go to a peer that just
//! connected, and what a retry or a send records.
use vstd::prelude::*;

use crate::content::{ContentType, DeliveryStatus};
use crate::error::CoreError;
use crate::p2p::P2pEvent;
use crate::storage::{Contact, OutboxEntry};
use crate::text::{concat3, decimal, decimal_string, opt_view, owned, str_eq, views};

use super::activity::awaiting_delivery;

verus! {

/// Whether some contact with peer id `peer_id` has contact id `id`.
pub open spec fn recipient_of_peer(contacts: Seq<Contact>, peer_id: Seq<char>, id: Seq<char>) -> bool {
    exists|k: int|
        0 <= k < contacts.len() && opt_view(#[trigger] contacts[k].peer_id) == Some(peer_id)
            && contacts[k].id@ == id
}

/// Positions of the outbox entries to flush when `peer_id` connects: those
/// addressed to a contact with that peer id and still awaiting delivery.
pub open spec fn flush_positions(
    contacts: Seq<Contact>,
    outbox: Seq<OutboxEntry>,
    peer_id: Seq<char>,
) -> Seq<usize>
    decreases outbox.len(),
{
    if outbox.len() == 0 {
        Seq::<usize>::empty()
    } else {
        let rest = flush_positions(contacts, outbox.drop_last(), peer_id);
        let e = outbox.last();
        if recipient_of_peer(contacts, peer_id, e.recipient_id@) && awaiting_delivery(e.status) {
            rest.push((outbox.len() - 1) as usize)
        } else {
            rest
        }
    }
}

fn is_recipient_of_peer(contacts: &[Contact], peer_id: &str, id: &str) -> (b: bool)
    ensures
        b == recipient_of_peer(contacts@, peer_id@, id@),
{
    let mut i: usize = 0;
    while i < contacts.len()
        invariant
            i <= contacts@.len(),
            forall|k: int|
                0 <= k < i ==> !(opt_view(#[trigger] contacts@[k].peer_id) == Some(peer_id@)
                    && contacts@[k].id@ == id@),
        decreases contacts@.len() - i,
    {
        let c = &contacts[i];
        let peer_matches = match &c.peer_id {
            Some(p) => str_eq(p.as_str(), peer_id),
            None => false,
        };
        if peer_matches && str_eq(c.id.as_str(), id) {
            return true;
        }
        i = i + 1;
    }
    false
}

/// The outbox entries to flush when `peer_id` connects, by position.
pub fn outbox_flush_positions(contacts: &[Contact], outbox: &[OutboxEntry], peer_id: &str) -> (r:
    Vec<usize>)
    ensures
        r@ == flush_positions(contacts@, outbox@, peer_id@),
{
    let mut out: Vec<usize> = Vec::new();
    let mut i: usize = 0;
    while i < outbox.len()
        invariant
            i <= outbox@.len(),
            out@ == flush_positions(contacts@, outbox@.take(i as int), peer_id@),
        decreases outbox@.len() - i,
    {
        proof {
            assert(outbox@.take(i + 1).drop_last() =~= outbox@.take(i as int));
        }
        let e = &outbox[i];
        let awaiting = match e.status {
            DeliveryStatus::Pending | DeliveryStatus::Sent | DeliveryStatus::Failed => true,
            _ => false,
        };
        if awaiting && is_recipient_of_peer(contacts, peer_id, e.recipient_id.as_str()) {
            out.push(i);
        }
        i = i + 1;
    }
    proof {
        assert(outbox@.take(outbox@.len() as int) =~= outbox@);
    }
    out
}

/// When a peer connects, the flush takes exactly the entries addressed to
/// a contact with that peer id whose delivery is pending, sent but not yet
/// acknowledged, or failed; it lists their positions once each, in order.
pub proof fn flush_takes_undelivered_entries_of_peer(
    contacts: Seq<Contact>,
    outbox: Seq<OutboxEntry>,
    peer_id: Seq<char>,
)
    requires
        outbox.len() <= usize::MAX,
    ensures
        forall|i: int|
            0 <= i < outbox.len() ==> (flush_positions(contacts, outbox, peer_id).contains(
                i as usize,
            ) <==> recipient_of_peer(contacts, peer_id, (#[trigger] outbox[i]).recipient_id@) && (
            outbox[i].status == DeliveryStatus::Pending || outbox[i].status == DeliveryStatus::Sent
                || outbox[i].status == DeliveryStatus::Failed)),
        forall|j: int|
            0 <= j < flush_positions(contacts, outbox, peer_id).len() ==> (#[trigger] flush_positions(
                contacts,
                outbox,
                peer_id,
            )[j]) < outbox.len(),
        forall|j: int, k: int|
            0 <= j < k < flush_positions(contacts, outbox, peer_id).len() ==> (#[trigger] flush_positions(
                contacts,
                outbox,
                peer_id,
            )[j]) < (#[trigger] flush_positions(contacts, outbox, peer_id)[k]),
    decreases outbox.len(),
{
    if outbox.len() > 0 {
        let init = outbox.drop_last();
        flush_takes_undelivered_entries_of_peer(contacts, init, peer_id);
        let r = flush_positions(contacts, init, peer_id);
        let f = flush_positions(contacts, outbox, peer_id);
        let last = (outbox.len() - 1) as usize;
        assert forall|i: int| 0 <= i < outbox.len() implies (f.contains(i as usize)
            <==> recipient_of_peer(contacts, peer_id, (#[trigger] outbox[i]).recipient_id@) && (
        outbox[i].status == DeliveryStatus::Pending || outbox[i].status == DeliveryStatus::Sent
            || outbox[i].status == DeliveryStatus::Failed)) by {
            if i < init.len() {
                assert(init[i] == outbox[i]);
                if f.contains(i as usize) {
                    let m = choose|m: int| 0 <= m < f.len() && f[m] == i as usize;
                    if m < r.len() {
                        assert(r[m] == f[m]);
                        assert(r.contains(i as usize));
                    }
                }
                if r.contains(i as usize) {
                    let m = choose|m: int| 0 <= m < r.len() && r[m] == i as usize;
                    assert(f[m] == r[m]);
                }
            } else {
                if f.contains(i as usize) {
                    let m = choose|m: int| 0 <= m < f.len() && f[m] == i as usize;
                    if m < r.len() {
                        assert(r[m] == f[m]);
                    }
                }
                if f.len() > r.len() {
                    assert(f[r.len() as int] == last);
                }
            }
        }
        assert forall|j: int| 0 <= j < f.len() implies (#[trigger] f[j]) < outbox.len() by {
            if j < r.len() {
                assert(f[j] == r[j]);
            }
        }
        assert forall|j: int, k: int| 0 <= j < k < f.len() implies (#[trigger] f[j]) < (
        #[trigger] f[k]) by {
            assert(f[j] == r[j]);
            assert(r[j] < init.len());
            if k < r.len() {
                assert(f[k] == r[k]);
            } else {
                assert(f[k] == last);
            }
        }
    }
}

/// Activity text after a flush sent `count` items.
pub fn outbox_flush_detail(count: usize) -> (r: String)
    ensures
        r@ == "Sent "@ + decimal(count as nat) + " pending item(s)"@,
{
    let n = decimal_string(count);
    concat3("Sent ", n.as_str(), " pending item(s)")
}

/// Kind of the first outbox entry for the content and recipient.
pub open spec fn entry_kind(outbox: Seq<OutboxEntry>, content_id: Seq<char>, recipient_id: Seq<char>) -> Option<
    ContentType,
>
    decreases outbox.len(),
{
    if outbox.len() == 0 {
        None
    } else if outbox[0].content_id@ == content_id && outbox[0].recipient_id@ == recipient_id {
        Some(outbox[0].content_type)
    } else {
        entry_kind(outbox.drop_first(), content_id, recipient_id)
    }
}

/// Kind of content a retry resends: that of its outbox entry, a message
/// when there is none.
pub fn outbox_content_type(outbox: &[OutboxEntry], content_id: &str, recipient_id: &str) -> (r:
    ContentType)
    ensures
        r == match entry_kind(outbox@, content_id@, recipient_id@) {
            Some(t) => t,
            None => ContentType::Message,
        },
{
    let mut i: usize = 0;
    assert(outbox@.subrange(0, outbox@.len() as int) =~= outbox@);
    while i < outbox.len()
        invariant
            i <= outbox@.len(),
            entry_kind(outbox@, content_id@, recipient_id@) == entry_kind(
                outbox@.subrange(i as int, outbox@.len() as int),
                content_id@,
                recipient_id@,
            ),
        decreases outbox@.len() - i,
    {
        let e = &outbox[i];
        let ghost rest = outbox@.subrange(i as int, outbox@.len() as int);
        assert(rest[0] == outbox@[i as int]);
        if str_eq(e.content_id.as_str(), content_id) && str_eq(e.recipient_id.as_str(), recipient_id) {
            return e.content_type;
        }
        proof {
            assert(rest.drop_first() =~= outbox@.subrange(i + 1, outbox@.len() as int));
        }
        i = i + 1;
    }
    ContentType::Message
}

/// The peer a delivery goes to: the recipient's peer id, or an error when
/// it has none.
pub fn delivery_peer(recipient: &Contact) -> (r: Result<String, CoreError>)
    ensures
        match opt_view(recipient.peer_id) {
            Some(p) => r matches Ok(s) && s@ == p,
            None => r matches Err(CoreError::P2p(m)) && m@ == "recipient has no peer id"@,
        },
{
    match &recipient.peer_id {
        Some(p) => Ok(p.clone()),
        None => Err(CoreError::P2p(owned("recipient has no peer id"))),
    }
}

/// What a delivery attempt records: sent when the peer took the envelope,
/// failed otherwise.
pub fn status_after_send(delivered: bool) -> (s: DeliveryStatus)
    ensures
        s == if delivered {
            DeliveryStatus::Sent
        } else {
            DeliveryStatus::Failed
        },
{
    if delivered {
        DeliveryStatus::Sent
    } else {
        DeliveryStatus::Failed
    }
}

/// Blob work a network event calls for.
#[derive(Debug, Clone)]
pub enum BlobAction {
    /// Push the post's media to the peer that acknowledged it.
    PushAfterAck { content_id: String, peer_id: String },
    /// Pull a blob the peer announced.
    Pull { hash: String, peer_id: String },
    Nothing,
}

/// What the event loop does after logging a network event.
#[derive(Debug, Clone)]
pub struct P2pEventPlan {
    /// A peer came online: flush its outbox entries and pull its missing
    /// media.
    pub flush_and_sync_peer: Option<String>,
    pub blob: BlobAction,
    /// Emit a connection-status change afterwards.
    pub emit_status: bool,
}

/// The follow-up for a network event: a new session flushes the outbox,
/// syncs media and reports status; a lost session reports status; an
/// acknowledgement pushes media; an announced blob is pulled.
pub fn p2p_event_plan(event: &P2pEvent) -> (r: P2pEventPlan)
    ensures
        match *event {
            P2pEvent::PeerConnected(p) => opt_view(r.flush_and_sync_peer) == Some(p@)
                && r.blob is Nothing && r.emit_status,
            P2pEvent::PeerDisconnected(_) => r.flush_and_sync_peer is None && r.blob is Nothing
                && r.emit_status,
            P2pEvent::DeliveryAcked { content_id, peer_id } => r.flush_and_sync_peer is None && (
            r.blob matches BlobAction::PushAfterAck { content_id: c, peer_id: p } && c@
                == content_id@ && p@ == peer_id@) && !r.emit_status,
            P2pEvent::BlobNeeded { hash, peer_id } => r.flush_and_sync_peer is None && (
            r.blob matches BlobAction::Pull { hash: h, peer_id: p } && h@ == hash@ && p@
                == peer_id@) && !r.emit_status,
            _ => r.flush_and_sync_peer is None && r.blob is Nothing && !r.emit_status,
        },
{
    match event {
        P2pEvent::PeerConnected(p) => P2pEventPlan {
            flush_and_sync_peer: Some(p.clone()),
            blob: BlobAction::Nothing,
            emit_status: true,
        },
        P2pEvent::PeerDisconnected(_) => P2pEventPlan {
            flush_and_sync_peer: None,
            blob: BlobAction::Nothing,
            emit_status: true,
        },
        P2pEvent::DeliveryAcked { content_id, peer_id } => P2pEventPlan {
            flush_and_sync_peer: None,
            blob: BlobAction::PushAfterAck { content_id: content_id.clone(), peer_id: peer_id.clone() },
            emit_status: false,
        },
        P2pEvent::BlobNeeded { hash, peer_id } => P2pEventPlan {
            flush_and_sync_peer: None,
            blob: BlobAction::Pull { hash: hash.clone(), peer_id: peer_id.clone() },
            emit_status: false,
        },
        _ => P2pEventPlan { flush_and_sync_peer: None, blob: BlobAction::Nothing, emit_status: false },
    }
}

/// Signing key of the first contact with the peer id: whose media to pull.
pub open spec fn peer_author_key(contacts: Seq<Contact>, peer_id: Seq<char>) -> Option<Seq<char>>
    decreases contacts.len(),
{
    if contacts.len() == 0 {
        None
    } else if opt_view(contacts[0].peer_id) == Some(peer_id) {
        Some(contacts[0].signing_pubkey@)
    } else {
        peer_author_key(contacts.drop_first(), peer_id)
    }
}

/// The author key whose missing media to pull from a peer that connected.
pub fn author_key_for_peer(contacts: &[Contact], peer_id: &str) -> (r: Option<String>)
    ensures
        opt_view(r) == peer_author_key(contacts@, peer_id@),
{
    let mut i: usize = 0;
    assert(contacts@.subrange(0, contacts@.len() as int) =~= contacts@);
    while i < contacts.len()
        invariant
            i <= contacts@.len(),
            peer_author_key(contacts@, peer_id@) == peer_author_key(
                contacts@.subrange(i as int, contacts@.len() as int),
                peer_id@,
            ),
        decreases contacts@.len() - i,
    {
        let c = &contacts[i];
        let ghost rest = contacts@.subrange(i as int, contacts@.len() as int);
        assert(rest[0] == contacts@[i as int]);
        let matches_peer = match &c.peer_id {
            Some(p) => str_eq(p.as_str(), peer_id),
            None => false,
        };
        if matches_peer {
            return Some(c.signing_pubkey.clone());
        }
        proof {
            assert(rest.drop_first() =~= contacts@.subrange(i + 1, contacts@.len() as int));
        }
        i = i + 1;
    }
    None
}

} // verus!
