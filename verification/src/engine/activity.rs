//! The P2P activity log: a bounded, newest-first list of events, and the UI
//! events produced when something happens on the network.
use std::collections::VecDeque;

use vstd::prelude::*;

use crate::content::{content_type_name, content_type_to_str, ContentType, DeliveryStatus};
use crate::p2p::P2pEvent;
use crate::storage::{Contact, InboxEntry, OutboxEntry};
use crate::text::{chars_of, concat2, concat3, opt_view, owned, str_eq, take_chars, take_prefix, views};
use crate::time::{now_utc, UtcTime};

use super::contacts::{connected_friend_peer_ids, friend_peers, is_connected};
use super::p2p_status::{
    build_labels, build_layers, friends_label, friends_state, headline, node_label, node_state,
    relay_label, relay_state, sync_label, sync_state, tone, tone_name, visual_tone,
    visual_tone_str, P2pLayerLabels, P2pLayers,
};
use super::relay_dial::{peer_ids_of, relay_peer_ids};

verus! {

broadcast use crate::text::group_views;

/// Most events the log keeps.
pub const MAX_EVENTS: usize = 20;

/// One row of the activity log.
#[derive(Debug)]
pub struct P2pActivityEvent {
    pub at: UtcTime,
    pub kind: String,
    pub detail: String,
    pub content_type: Option<String>,
}

/// The contents of an activity row.
pub struct ActivityRow {
    pub at: UtcTime,
    pub kind: Seq<char>,
    pub detail: Seq<char>,
    pub content_type: Option<Seq<char>>,
}

impl View for P2pActivityEvent {
    type V = ActivityRow;

    open spec fn view(&self) -> ActivityRow {
        ActivityRow {
            at: self.at,
            kind: self.kind@,
            detail: self.detail@,
            content_type: opt_view(self.content_type),
        }
    }
}

/// Real-time UI event: an activity row plus the payload some events carry.
#[derive(Debug)]
pub struct P2pUiEvent {
    pub at: UtcTime,
    pub kind: String,
    pub detail: String,
    pub sender_id: Option<String>,
    pub contact_id: Option<String>,
    pub content_id: Option<String>,
    pub body: Option<String>,
    pub content_type: Option<String>,
    pub expires_at: Option<UtcTime>,
    pub post_id: Option<String>,
    /// Populated on `p2p_status_changed` events.
    pub connected_peer_ids: Option<Vec<String>>,
    pub tone: Option<String>,
    pub pending_outbox_count: Option<usize>,
    pub dial_in_progress: Option<bool>,
    pub layers: Option<P2pLayers>,
    pub labels: Option<P2pLayerLabels>,
}

/// The log as seen from outside.
#[derive(Debug)]
pub struct P2pActivitySnapshot {
    pub dial_in_progress: bool,
    pub last_activity_at: Option<UtcTime>,
    pub events: Vec<P2pActivityEvent>,
}

/// Bounded log of recent P2P activity, newest first.
#[derive(Debug)]
pub struct ActivityLog {
    dial_in_progress: bool,
    last_activity_at: Option<UtcTime>,
    events: VecDeque<P2pActivityEvent>,
}

/// The rows of a sequence of events.
pub open spec fn rows_of(events: Seq<P2pActivityEvent>) -> Seq<ActivityRow> {
    events.map_values(|e: P2pActivityEvent| e@)
}

/// `rows` after `row` is recorded: newest first, at most `MAX_EVENTS` kept.
pub open spec fn pushed(rows: Seq<ActivityRow>, row: ActivityRow) -> Seq<ActivityRow> {
    let all = seq![row] + rows;
    if all.len() > MAX_EVENTS {
        all.take(MAX_EVENTS as int)
    } else {
        all
    }
}

/// A UI event with the given row fields and payload, and no status fields.
pub open spec fn carries(
    ui: P2pUiEvent,
    kind: Seq<char>,
    detail: Seq<char>,
    content_type: Option<Seq<char>>,
    sender_id: Option<Seq<char>>,
    contact_id: Option<Seq<char>>,
    content_id: Option<Seq<char>>,
    body: Option<Seq<char>>,
    expires_at: Option<UtcTime>,
    post_id: Option<Seq<char>>,
) -> bool {
    &&& ui.kind@ == kind
    &&& ui.detail@ == detail
    &&& opt_view(ui.content_type) == content_type
    &&& opt_view(ui.sender_id) == sender_id
    &&& opt_view(ui.contact_id) == contact_id
    &&& opt_view(ui.content_id) == content_id
    &&& opt_view(ui.body) == body
    &&& ui.expires_at == expires_at
    &&& opt_view(ui.post_id) == post_id
    &&& ui.connected_peer_ids is None
    &&& ui.tone is None
    &&& ui.pending_outbox_count is None
    &&& ui.dial_in_progress is None
    &&& ui.layers is None
    &&& ui.labels is None
}

/// A UI event carrying only the activity row's fields.
pub open spec fn is_plain_event(
    ui: P2pUiEvent,
    at: UtcTime,
    kind: Seq<char>,
    detail: Seq<char>,
    content_type: Option<Seq<char>>,
) -> bool {
    &&& ui.at == at
    &&& carries(ui, kind, detail, content_type, None, None, None, None, None, None)
}

fn copy_opt(o: &Option<String>) -> (r: Option<String>)
    ensures
        opt_view(r) == opt_view(*o),
{
    match o {
        Some(s) => Some(s.clone()),
        None => None,
    }
}

fn copy_event(e: &P2pActivityEvent) -> (r: P2pActivityEvent)
    ensures
        r@ == e@,
{
    P2pActivityEvent {
        at: e.at,
        kind: e.kind.clone(),
        detail: e.detail.clone(),
        content_type: copy_opt(&e.content_type),
    }
}

impl ActivityLog {
    /// Rows of the log, newest first.
    pub closed spec fn rows(&self) -> Seq<ActivityRow> {
        rows_of(self.events@)
    }

    /// Whether a redial pass is running.
    pub closed spec fn dialing(&self) -> bool {
        self.dial_in_progress
    }

    /// Time of the newest activity.
    pub closed spec fn last_at(&self) -> Option<UtcTime> {
        self.last_activity_at
    }

    /// The log never holds more than `MAX_EVENTS` rows.
    pub open spec fn wf(&self) -> bool {
        self.rows().len() <= MAX_EVENTS
    }

    pub fn new() -> (r: Self)
        ensures
            r.wf(),
            r.rows() == Seq::<ActivityRow>::empty(),
            !r.dialing(),
            r.last_at() is None,
    {
        let r = ActivityLog { dial_in_progress: false, last_activity_at: None, events: VecDeque::new() };
        proof {
            assert(rows_of(r.events@) =~= Seq::<ActivityRow>::empty());
        }
        r
    }

    /// Record an event that happened at `now`.
    pub fn push_at(
        &mut self,
        now: UtcTime,
        kind: &str,
        detail: &str,
        content_type: Option<String>,
    ) -> (ui: P2pUiEvent)
        requires
            old(self).wf(),
        ensures
            final(self).wf(),
            final(self).rows() == pushed(
                old(self).rows(),
                ActivityRow {
                    at: now,
                    kind: kind@,
                    detail: detail@,
                    content_type: opt_view(content_type),
                },
            ),
            final(self).last_at() == Some(now),
            final(self).dialing() == old(self).dialing(),
            is_plain_event(ui, now, kind@, detail@, opt_view(content_type)),
    {
        let ghost row = ActivityRow {
            at: now,
            kind: kind@,
            detail: detail@,
            content_type: opt_view(content_type),
        };
        let ghost all = seq![row] + rows_of(self.events@);
        self.last_activity_at = Some(now);
        let ev = P2pActivityEvent {
            at: now,
            kind: owned(kind),
            detail: owned(detail),
            content_type: copy_opt(&content_type),
        };
        self.events.push_front(ev);
        proof {
            assert(rows_of(self.events@) =~= all);
        }
        while self.events.len() > MAX_EVENTS
            invariant
                all.len() <= MAX_EVENTS + 1,
                self.events@.len() <= all.len(),
                self.events@.len() >= MAX_EVENTS || self.events@.len() == all.len(),
                rows_of(self.events@) == all.take(self.events@.len() as int),
                self.last_activity_at == Some(now),
                self.dial_in_progress == old(self).dial_in_progress,
            decreases self.events@.len(),
        {
            let ghost before = self.events@;
            self.events.pop_back();
            proof {
                assert(rows_of(self.events@) =~= all.take(self.events@.len() as int));
            }
        }
        proof {
            assert(rows_of(self.events@) =~= pushed(rows_of(old(self).events@), row));
        }
        P2pUiEvent {
            at: now,
            kind: owned(kind),
            detail: owned(detail),
            sender_id: None,
            contact_id: None,
            content_id: None,
            body: None,
            content_type,
            expires_at: None,
            post_id: None,
            connected_peer_ids: None,
            tone: None,
            pending_outbox_count: None,
            dial_in_progress: None,
            layers: None,
            labels: None,
        }
    }

    /// Record an event that happens now, with an optional content type.
    pub fn push_with_content_type(&mut self, kind: &str, detail: &str, content_type: Option<String>) -> (ui:
        P2pUiEvent)
        requires
            old(self).wf(),
        ensures
            final(self).wf(),
            final(self).last_at() == Some(ui.at),
            final(self).rows() == pushed(
                old(self).rows(),
                ActivityRow {
                    at: ui.at,
                    kind: kind@,
                    detail: detail@,
                    content_type: opt_view(content_type),
                },
            ),
            final(self).dialing() == old(self).dialing(),
            is_plain_event(ui, ui.at, kind@, detail@, opt_view(content_type)),
    {
        let now = now_utc();
        self.push_at(now, kind, detail, content_type)
    }

    /// Record an event that happens now.
    pub fn push(&mut self, kind: &str, detail: &str) -> (ui: P2pUiEvent)
        requires
            old(self).wf(),
        ensures
            final(self).wf(),
            final(self).last_at() == Some(ui.at),
            final(self).rows() == pushed(
                old(self).rows(),
                ActivityRow { at: ui.at, kind: kind@, detail: detail@, content_type: None },
            ),
            final(self).dialing() == old(self).dialing(),
            is_plain_event(ui, ui.at, kind@, detail@, None),
    {
        self.push_with_content_type(kind, detail, None)
    }

    /// Mark a redial pass as running or finished; starting one is logged.
    pub fn set_dial_in_progress(&mut self, in_progress: bool)
        requires
            old(self).wf(),
        ensures
            final(self).wf(),
            final(self).dialing() == in_progress,
            !in_progress ==> final(self).rows() == old(self).rows() && final(self).last_at()
                == old(self).last_at(),
            in_progress ==> exists|at: UtcTime|
                final(self).last_at() == Some(at) && final(self).rows() == pushed(
                    old(self).rows(),
                    ActivityRow {
                        at,
                        kind: "dial"@,
                        detail: "Connecting to relay and friends…"@,
                        content_type: None,
                    },
                ),
    {
        self.dial_in_progress = in_progress;
        if in_progress {
            let ui = self.push("dial", "Connecting to relay and friends…");
            assert(self.last_at() == Some(ui.at));
        }
    }

    /// Copy of the log for the API.
    pub fn snapshot(&self) -> (s: P2pActivitySnapshot)
        ensures
            s.dial_in_progress == self.dialing(),
            s.last_activity_at == self.last_at(),
            rows_of(s.events@) == self.rows(),
    {
        let mut events: Vec<P2pActivityEvent> = Vec::new();
        let mut i: usize = 0;
        while i < self.events.len()
            invariant
                i <= self.events@.len(),
                events@.len() == i,
                forall|j: int| 0 <= j < i ==> (#[trigger] events@[j])@ == self.events@[j]@,
            decreases self.events@.len() - i,
        {
            let e = copy_event(&self.events[i]);
            events.push(e);
            i = i + 1;
        }
        proof {
            assert(rows_of(events@) =~= rows_of(self.events@));
        }
        P2pActivitySnapshot {
            dial_in_progress: self.dial_in_progress,
            last_activity_at: self.last_activity_at,
            events,
        }
    }
}

} // verus!

verus! {

/// Whether contact `c` answers to `id`: its peer id, contact id or signing key.
pub open spec fn answers_to(c: Contact, id: Seq<char>) -> bool {
    opt_view(c.peer_id) == Some(id) || c.id@ == id || c.signing_pubkey@ == id
}

/// Display name of the first contact answering to `id`, else `friend`.
pub open spec fn label_of(contacts: Seq<Contact>, id: Seq<char>) -> Seq<char>
    decreases contacts.len(),
{
    if contacts.len() == 0 {
        "friend"@
    } else if answers_to(contacts[0], id) {
        contacts[0].display_name@
    } else {
        label_of(contacts.drop_first(), id)
    }
}

/// Id of the first contact whose peer id is `peer_id`.
pub open spec fn peer_contact_id(contacts: Seq<Contact>, peer_id: Seq<char>) -> Option<Seq<char>>
    decreases contacts.len(),
{
    if contacts.len() == 0 {
        None
    } else if opt_view(contacts[0].peer_id) == Some(peer_id) {
        Some(contacts[0].id@)
    } else {
        peer_contact_id(contacts.drop_first(), peer_id)
    }
}

/// Recipient of the first outbox entry for `content_id`.
pub open spec fn outbox_recipient(outbox: Seq<OutboxEntry>, content_id: Seq<char>) -> Option<
    Seq<char>,
>
    decreases outbox.len(),
{
    if outbox.len() == 0 {
        None
    } else if outbox[0].content_id@ == content_id {
        Some(outbox[0].recipient_id@)
    } else {
        outbox_recipient(outbox.drop_first(), content_id)
    }
}

/// Expiry of the first inbox entry for `content_id`.
pub open spec fn inbox_expiry(inbox: Seq<InboxEntry>, content_id: Seq<char>) -> Option<UtcTime>
    decreases inbox.len(),
{
    if inbox.len() == 0 {
        None
    } else if inbox[0].content_id@ == content_id {
        Some(inbox[0].expires_at)
    } else {
        inbox_expiry(inbox.drop_first(), content_id)
    }
}

/// Contact an acknowledged delivery belongs to: the outbox recipient of the
/// content, else the contact with the acknowledging peer id.
pub open spec fn ack_contact_id(
    outbox: Seq<OutboxEntry>,
    contacts: Seq<Contact>,
    content_id: Seq<char>,
    peer_id: Seq<char>,
) -> Option<Seq<char>> {
    match outbox_recipient(outbox, content_id) {
        Some(r) => Some(r),
        None => peer_contact_id(contacts, peer_id),
    }
}

fn opt_str_eq(o: &Option<String>, s: &str) -> (b: bool)
    ensures
        b == (opt_view(*o) == Some(s@)),
{
    match o {
        Some(x) => str_eq(x.as_str(), s),
        None => false,
    }
}

fn contact_label(contacts: &[Contact], id: &str) -> (r: String)
    ensures
        r@ == label_of(contacts@, id@),
{
    let mut i: usize = 0;
    assert(contacts@.subrange(0, contacts@.len() as int) =~= contacts@);
    while i < contacts.len()
        invariant
            i <= contacts@.len(),
            label_of(contacts@, id@) == label_of(
                contacts@.subrange(i as int, contacts@.len() as int),
                id@,
            ),
        decreases contacts@.len() - i,
    {
        let c = &contacts[i];
        let ghost rest = contacts@.subrange(i as int, contacts@.len() as int);
        assert(rest[0] == contacts@[i as int]);
        if opt_str_eq(&c.peer_id, id) || str_eq(c.id.as_str(), id) || str_eq(
            c.signing_pubkey.as_str(),
            id,
        ) {
            return c.display_name.clone();
        }
        proof {
            assert(rest.drop_first() =~= contacts@.subrange(i + 1, contacts@.len() as int));
        }
        i = i + 1;
    }
    owned("friend")
}

fn contact_id_for_peer(contacts: &[Contact], peer_id: &str) -> (r: Option<String>)
    ensures
        opt_view(r) == peer_contact_id(contacts@, peer_id@),
{
    let mut i: usize = 0;
    assert(contacts@.subrange(0, contacts@.len() as int) =~= contacts@);
    while i < contacts.len()
        invariant
            i <= contacts@.len(),
            peer_contact_id(contacts@, peer_id@) == peer_contact_id(
                contacts@.subrange(i as int, contacts@.len() as int),
                peer_id@,
            ),
        decreases contacts@.len() - i,
    {
        let c = &contacts[i];
        let ghost rest = contacts@.subrange(i as int, contacts@.len() as int);
        assert(rest[0] == contacts@[i as int]);
        if opt_str_eq(&c.peer_id, peer_id) {
            return Some(c.id.clone());
        }
        proof {
            assert(rest.drop_first() =~= contacts@.subrange(i + 1, contacts@.len() as int));
        }
        i = i + 1;
    }
    None
}

fn delivery_ack_contact_id(
    outbox: &[OutboxEntry],
    contacts: &[Contact],
    content_id: &str,
    peer_id: &str,
) -> (r: Option<String>)
    ensures
        opt_view(r) == ack_contact_id(outbox@, contacts@, content_id@, peer_id@),
{
    let mut i: usize = 0;
    assert(outbox@.subrange(0, outbox@.len() as int) =~= outbox@);
    while i < outbox.len()
        invariant
            i <= outbox@.len(),
            outbox_recipient(outbox@, content_id@) == outbox_recipient(
                outbox@.subrange(i as int, outbox@.len() as int),
                content_id@,
            ),
        decreases outbox@.len() - i,
    {
        let e = &outbox[i];
        let ghost rest = outbox@.subrange(i as int, outbox@.len() as int);
        assert(rest[0] == outbox@[i as int]);
        if str_eq(e.content_id.as_str(), content_id) {
            return Some(e.recipient_id.clone());
        }
        proof {
            assert(rest.drop_first() =~= outbox@.subrange(i + 1, outbox@.len() as int));
        }
        i = i + 1;
    }
    contact_id_for_peer(contacts, peer_id)
}

fn inbox_expiry_of(inbox: &[InboxEntry], content_id: &str) -> (r: Option<UtcTime>)
    ensures
        r == inbox_expiry(inbox@, content_id@),
{
    let mut i: usize = 0;
    assert(inbox@.subrange(0, inbox@.len() as int) =~= inbox@);
    while i < inbox.len()
        invariant
            i <= inbox@.len(),
            inbox_expiry(inbox@, content_id@) == inbox_expiry(
                inbox@.subrange(i as int, inbox@.len() as int),
                content_id@,
            ),
        decreases inbox@.len() - i,
    {
        let e = &inbox[i];
        let ghost rest = inbox@.subrange(i as int, inbox@.len() as int);
        assert(rest[0] == inbox@[i as int]);
        if str_eq(e.content_id.as_str(), content_id) {
            return Some(e.expires_at);
        }
        proof {
            assert(rest.drop_first() =~= inbox@.subrange(i + 1, inbox@.len() as int));
        }
        i = i + 1;
    }
    None
}

/// First eight characters of an id, as shown in the log.
pub open spec fn short(id: Seq<char>) -> Seq<char> {
    take_chars(id, 8)
}

/// The first 40 characters of a body, with an ellipsis when it is longer.
pub open spec fn preview(body: Seq<char>) -> Seq<char> {
    if body.len() > 40 {
        take_chars(body, 40) + "…"@
    } else {
        body
    }
}

/// The activity row kind of a network event.
pub open spec fn event_kind(e: P2pEvent) -> Seq<char> {
    match e {
        P2pEvent::PeerConnected(_) => "peer_connected"@,
        P2pEvent::PeerDisconnected(_) => "peer_disconnected"@,
        P2pEvent::MessageReceived { .. } => "message_received"@,
        P2pEvent::DeliveryAcked { .. } => "delivery_acked"@,
        P2pEvent::BlobNeeded { .. } => "blob_sync"@,
        P2pEvent::FriendRequestReceived(_) => "friend_request"@,
        P2pEvent::CommentReceived { .. } => "comment_received"@,
    }
}

/// The activity row text of a network event, naming contacts from `contacts`.
pub open spec fn event_detail(e: P2pEvent, contacts: Seq<Contact>) -> Seq<char> {
    match e {
        P2pEvent::PeerConnected(p) => "Connected to "@ + label_of(contacts, p@),
        P2pEvent::PeerDisconnected(p) => label_of(contacts, p@) + " disconnected"@,
        P2pEvent::MessageReceived { sender_id, body, .. } => label_of(contacts, sender_id@) + ": "@
            + preview(body@),
        P2pEvent::DeliveryAcked { content_id, peer_id } => "Delivered "@ + short(content_id@)
            + " to "@ + label_of(contacts, peer_id@),
        P2pEvent::BlobNeeded { hash, peer_id } => "Fetching photo "@ + short(hash@) + " from "@
            + label_of(contacts, peer_id@),
        P2pEvent::FriendRequestReceived(req) => "Friend request from "@ + req.display_name@,
        P2pEvent::CommentReceived { body, .. } => "New comment: "@ + preview(body@),
    }
}

/// The content type recorded with a network event.
pub open spec fn event_content_type(e: P2pEvent) -> Option<Seq<char>> {
    match e {
        P2pEvent::MessageReceived { content_type, .. } => Some(content_type_name(content_type)),
        P2pEvent::DeliveryAcked { .. } => Some("message"@),
        P2pEvent::CommentReceived { .. } => Some("comment"@),
        _ => None,
    }
}

/// The UI event for a network event: the row's fields plus the payload
/// that messages, acknowledgements, comments and friend requests carry.
pub open spec fn event_payload(
    ui: P2pUiEvent,
    e: P2pEvent,
    contacts: Seq<Contact>,
    outbox: Seq<OutboxEntry>,
    inbox: Seq<InboxEntry>,
) -> bool {
    let kind = event_kind(e);
    let detail = event_detail(e, contacts);
    let ct = event_content_type(e);
    match e {
        P2pEvent::MessageReceived { sender_id, body, content_id, contact_id, .. } => carries(
            ui,
            kind,
            detail,
            ct,
            Some(sender_id@),
            opt_view(contact_id),
            Some(content_id@),
            Some(body@),
            inbox_expiry(inbox, content_id@),
            None,
        ),
        P2pEvent::DeliveryAcked { content_id, peer_id } => carries(
            ui,
            kind,
            detail,
            ct,
            None,
            ack_contact_id(outbox, contacts, content_id@, peer_id@),
            Some(content_id@),
            None,
            None,
            None,
        ),
        P2pEvent::CommentReceived { post_id, content_id, author_id, body } => carries(
            ui,
            kind,
            detail,
            ct,
            Some(author_id@),
            None,
            Some(content_id@),
            Some(body@),
            None,
            Some(post_id@),
        ),
        P2pEvent::FriendRequestReceived(req) => carries(
            ui,
            kind,
            detail,
            ct,
            Some(req.signing_pubkey@),
            None,
            None,
            Some(req.display_name@),
            None,
            None,
        ),
        _ => carries(ui, kind, detail, ct, None, None, None, None, None, None),
    }
}

fn short_id(id: &str) -> (r: String)
    ensures
        r@ == short(id@),
{
    take_prefix(id, 8)
}

fn body_preview(body: &str) -> (r: String)
    ensures
        r@ == preview(body@),
{
    let n = chars_of(body).len();
    if n > 40 {
        let head = take_prefix(body, 40);
        concat2(head.as_str(), "…")
    } else {
        owned(body)
    }
}

fn event_kind_str(e: &P2pEvent) -> (k: &'static str)
    ensures
        k@ == event_kind(*e),
{
    match e {
        P2pEvent::PeerConnected(_) => "peer_connected",
        P2pEvent::PeerDisconnected(_) => "peer_disconnected",
        P2pEvent::MessageReceived { .. } => "message_received",
        P2pEvent::DeliveryAcked { .. } => "delivery_acked",
        P2pEvent::BlobNeeded { .. } => "blob_sync",
        P2pEvent::FriendRequestReceived(_) => "friend_request",
        P2pEvent::CommentReceived { .. } => "comment_received",
    }
}

fn event_detail_text(e: &P2pEvent, contacts: &[Contact]) -> (r: String)
    ensures
        r@ == event_detail(*e, contacts@),
{
    match e {
        P2pEvent::PeerConnected(p) => {
            let name = contact_label(contacts, p.as_str());
            concat2("Connected to ", name.as_str())
        },
        P2pEvent::PeerDisconnected(p) => {
            let name = contact_label(contacts, p.as_str());
            concat2(name.as_str(), " disconnected")
        },
        P2pEvent::MessageReceived { sender_id, body, .. } => {
            let name = contact_label(contacts, sender_id.as_str());
            let pv = body_preview(body.as_str());
            concat3(name.as_str(), ": ", pv.as_str())
        },
        P2pEvent::DeliveryAcked { content_id, peer_id } => {
            let head = concat2("Delivered ", short_id(content_id.as_str()).as_str());
            let name = contact_label(contacts, peer_id.as_str());
            concat3(head.as_str(), " to ", name.as_str())
        },
        P2pEvent::BlobNeeded { hash, peer_id } => {
            let head = concat2("Fetching photo ", short_id(hash.as_str()).as_str());
            let name = contact_label(contacts, peer_id.as_str());
            concat3(head.as_str(), " from ", name.as_str())
        },
        P2pEvent::FriendRequestReceived(req) => {
            concat2("Friend request from ", req.display_name.as_str())
        },
        P2pEvent::CommentReceived { body, .. } => {
            let pv = body_preview(body.as_str());
            concat2("New comment: ", pv.as_str())
        },
    }
}

/// `base` with its payload fields replaced.
fn with_payload(
    base: P2pUiEvent,
    content_type: Option<String>,
    sender_id: Option<String>,
    contact_id: Option<String>,
    content_id: Option<String>,
    body: Option<String>,
    expires_at: Option<UtcTime>,
    post_id: Option<String>,
) -> (ui: P2pUiEvent)
    requires
        is_plain_event(base, base.at, base.kind@, base.detail@, opt_view(content_type)),
    ensures
        ui.at == base.at,
        carries(
            ui,
            base.kind@,
            base.detail@,
            opt_view(content_type),
            opt_view(sender_id),
            opt_view(contact_id),
            opt_view(content_id),
            opt_view(body),
            expires_at,
            opt_view(post_id),
        ),
{
    P2pUiEvent {
        at: base.at,
        kind: base.kind,
        detail: base.detail,
        sender_id,
        contact_id,
        content_id,
        body,
        content_type,
        expires_at,
        post_id,
        connected_peer_ids: base.connected_peer_ids,
        tone: base.tone,
        pending_outbox_count: base.pending_outbox_count,
        dial_in_progress: base.dial_in_progress,
        layers: base.layers,
        labels: base.labels,
    }
}

/// Record a network event in the log and build the UI event to broadcast.
/// `contacts`, `outbox` and `inbox` are the stored rows used to name peers,
/// find the contact of an acknowledged delivery and the expiry of a message.
pub fn log_p2p_event(
    log: &mut ActivityLog,
    event: &P2pEvent,
    contacts: &[Contact],
    outbox: &[OutboxEntry],
    inbox: &[InboxEntry],
) -> (ui: P2pUiEvent)
    requires
        old(log).wf(),
    ensures
        final(log).wf(),
        final(log).dialing() == old(log).dialing(),
        final(log).last_at() == Some(ui.at),
        final(log).rows() == pushed(
            old(log).rows(),
            ActivityRow {
                at: ui.at,
                kind: event_kind(*event),
                detail: event_detail(*event, contacts@),
                content_type: event_content_type(*event),
            },
        ),
        event_payload(ui, *event, contacts@, outbox@, inbox@),
{
    let detail = event_detail_text(event, contacts);
    let kind = event_kind_str(event);
    match event {
        P2pEvent::MessageReceived { sender_id, body, content_id, content_type, contact_id } => {
            let expires_at = inbox_expiry_of(inbox, content_id.as_str());
            let ct = content_type_to_str(*content_type);
            let base = log.push_with_content_type(kind, detail.as_str(), Some(owned(ct)));
            with_payload(
                base,
                Some(owned(ct)),
                Some(sender_id.clone()),
                copy_opt(contact_id),
                Some(content_id.clone()),
                Some(body.clone()),
                expires_at,
                None,
            )
        },
        P2pEvent::DeliveryAcked { content_id, peer_id } => {
            let contact_id = delivery_ack_contact_id(
                outbox,
                contacts,
                content_id.as_str(),
                peer_id.as_str(),
            );
            let base = log.push_with_content_type(kind, detail.as_str(), Some(owned("message")));
            with_payload(
                base,
                Some(owned("message")),
                None,
                contact_id,
                Some(content_id.clone()),
                None,
                None,
                None,
            )
        },
        P2pEvent::CommentReceived { post_id, content_id, author_id, body } => {
            let base = log.push_with_content_type(kind, detail.as_str(), Some(owned("comment")));
            with_payload(
                base,
                Some(owned("comment")),
                Some(author_id.clone()),
                None,
                Some(content_id.clone()),
                Some(body.clone()),
                None,
                Some(post_id.clone()),
            )
        },
        P2pEvent::FriendRequestReceived(req) => {
            let base = log.push(kind, detail.as_str());
            with_payload(
                base,
                None,
                Some(req.signing_pubkey.clone()),
                None,
                None,
                Some(req.display_name.clone()),
                None,
                None,
            )
        },
        _ => log.push(kind, detail.as_str()),
    }
}

/// Whether a delivery still waits to reach its recipient.
pub open spec fn awaiting_delivery(status: DeliveryStatus) -> bool {
    status == DeliveryStatus::Pending || status == DeliveryStatus::Sent || status
        == DeliveryStatus::Failed
}

/// Number of outbox entries that still wait for delivery.
pub open spec fn pending_count(outbox: Seq<OutboxEntry>) -> nat
    decreases outbox.len(),
{
    if outbox.len() == 0 {
        0
    } else {
        pending_count(outbox.drop_last()) + if awaiting_delivery(outbox.last().status) {
            1nat
        } else {
            0nat
        }
    }
}

proof fn lemma_pending_count_bound(outbox: Seq<OutboxEntry>)
    ensures
        pending_count(outbox) <= outbox.len(),
    decreases outbox.len(),
{
    if outbox.len() > 0 {
        lemma_pending_count_bound(outbox.drop_last());
    }
}

/// Outbox entries still pending, sent or failed: what the sync layer counts.
pub fn count_pending_outbox(outbox: &[OutboxEntry]) -> (n: usize)
    ensures
        n == pending_count(outbox@),
{
    let mut n: usize = 0;
    let mut i: usize = 0;
    while i < outbox.len()
        invariant
            i <= outbox@.len(),
            n == pending_count(outbox@.take(i as int)),
        decreases outbox@.len() - i,
    {
        proof {
            assert(outbox@.take(i + 1).drop_last() =~= outbox@.take(i as int));
            lemma_pending_count_bound(outbox@.take(i as int));
        }
        let st = outbox[i].status;
        match st {
            DeliveryStatus::Pending | DeliveryStatus::Sent | DeliveryStatus::Failed => {
                n = n + 1;
            },
            _ => {},
        }
        i = i + 1;
    }
    proof {
        assert(outbox@.take(outbox@.len() as int) =~= outbox@);
    }
    n
}

/// Relay facts cached from the last full status probe.
#[derive(Debug, Clone)]
pub struct P2pStatusRelayHints {
    pub relay_configured: bool,
    pub relay_peer_ids: Vec<String>,
    pub relay_tcp_reachable: Option<bool>,
}

impl Default for P2pStatusRelayHints {
    fn default() -> (h: Self)
        ensures
            !h.relay_configured,
            h.relay_peer_ids@.len() == 0,
            h.relay_tcp_reachable is None,
    {
        P2pStatusRelayHints {
            relay_configured: false,
            relay_peer_ids: Vec::new(),
            relay_tcp_reachable: None,
        }
    }
}

/// Refresh the relay hints from the stored relay list; a probe result, when
/// one is given, replaces the cached reachability.
pub fn refresh_relay_hints_from_store(
    relay_hints: &mut P2pStatusRelayHints,
    relays: &[String],
    relay_tcp_reachable: Option<bool>,
)
    ensures
        final(relay_hints).relay_configured == (relays@.len() > 0),
        views(final(relay_hints).relay_peer_ids@) == peer_ids_of(views(relays@)),
        final(relay_hints).relay_tcp_reachable == match relay_tcp_reachable {
            Some(r) => Some(r),
            None => old(relay_hints).relay_tcp_reachable,
        },
{
    relay_hints.relay_configured = relays.len() > 0;
    relay_hints.relay_peer_ids = relay_peer_ids(relays);
    if let Some(reachable) = relay_tcp_reachable {
        relay_hints.relay_tcp_reachable = Some(reachable);
    }
}

/// Record a sent message and build its UI event.
pub fn emit_message_sent_ui_event(
    log: &mut ActivityLog,
    contacts: &[Contact],
    content_id: &str,
    contact_id: &str,
    content_type: ContentType,
) -> (ui: P2pUiEvent)
    requires
        old(log).wf(),
    ensures
        final(log).wf(),
        final(log).dialing() == old(log).dialing(),
        final(log).last_at() == Some(ui.at),
        final(log).rows() == pushed(
            old(log).rows(),
            ActivityRow {
                at: ui.at,
                kind: "message_sent"@,
                detail: "Sent "@ + short(content_id@) + " to "@ + label_of(contacts@, contact_id@),
                content_type: Some(content_type_name(content_type)),
            },
        ),
        carries(
            ui,
            "message_sent"@,
            "Sent "@ + short(content_id@) + " to "@ + label_of(contacts@, contact_id@),
            Some(content_type_name(content_type)),
            None,
            Some(contact_id@),
            Some(content_id@),
            None,
            None,
            None,
        ),
{
    let name = contact_label(contacts, contact_id);
    let ct = content_type_to_str(content_type);
    let head = concat2("Sent ", short_id(content_id).as_str());
    let detail = concat3(head.as_str(), " to ", name.as_str());
    let base = log.push_with_content_type("message_sent", detail.as_str(), Some(owned(ct)));
    with_payload(
        base,
        Some(owned(ct)),
        None,
        Some(owned(contact_id)),
        Some(owned(content_id)),
        None,
        None,
        None,
    )
}

/// Whether any relay peer id is among the connected peers.
pub open spec fn any_relay_connected(relay_ids: Seq<Seq<char>>, connected: Seq<Seq<char>>) -> bool {
    exists|k: int| 0 <= k < relay_ids.len() && connected.contains(#[trigger] relay_ids[k])
}

/// Peers a running node reports, or none when the node is not running.
pub open spec fn node_peer_views(node_peers: Option<Vec<String>>) -> Seq<Seq<char>> {
    match node_peers {
        Some(v) => views(v@),
        None => Seq::<Seq<char>>::empty(),
    }
}

/// The layers `build_layers` derives from these facts.
pub open spec fn layers_built(
    l: P2pLayers,
    running: bool,
    relay_configured: bool,
    relay_tcp_reachable: Option<bool>,
    relay_connected: bool,
    friends_online: nat,
    dial_in_progress: bool,
    pending_outbox_count: usize,
) -> bool {
    &&& l.node@ == node_state(running)
    &&& l.relay@ == relay_state(running, relay_configured, relay_tcp_reachable, relay_connected)
    &&& l.friends_online_count == friends_online
    &&& l.friends@ == friends_state(running, l.friends_online_count, dial_in_progress)
    &&& l.sync@ == sync_state(pending_outbox_count)
    &&& l.pending_outbox_count == pending_outbox_count
}

/// The labels `build_labels` gives these layers.
pub open spec fn labels_built(lb: P2pLayerLabels, l: P2pLayers) -> bool {
    &&& lb.headline@ == headline(l)
    &&& lb.node@ == node_label(l.node@)
    &&& lb.relay@ == relay_label(l.relay@)
    &&& lb.friends@ == friends_label(l.friends@, l.node@, l.friends_online_count)
    &&& lb.sync@ == sync_label(l.sync@, l.pending_outbox_count)
}

/// The `p2p_status_changed` UI event for the given facts: layers, labels,
/// tone, connected peers, outbox count and dial state, with the headline as
/// its text.
pub open spec fn status_event(
    ui: P2pUiEvent,
    hints: P2pStatusRelayHints,
    pending_outbox_count: usize,
    node_peers: Option<Vec<String>>,
    dial_in_progress: bool,
) -> bool {
    let running = node_peers is Some;
    let connected = node_peer_views(node_peers);
    let relay_ids = views(hints.relay_peer_ids@);
    &&& ui.kind@ == "p2p_status_changed"@
    &&& ui.content_type is None
    &&& ui.sender_id is None
    &&& ui.contact_id is None
    &&& ui.content_id is None
    &&& ui.body is None
    &&& ui.expires_at is None
    &&& ui.post_id is None
    &&& opt_views(ui.connected_peer_ids) == Some(connected)
    &&& ui.pending_outbox_count == Some(pending_outbox_count)
    &&& ui.dial_in_progress == Some(dial_in_progress)
    &&& match (ui.layers, ui.labels) {
        (Some(l), Some(lb)) => {
            &&& layers_built(
                l,
                running,
                hints.relay_configured,
                hints.relay_tcp_reachable,
                any_relay_connected(relay_ids, connected),
                friend_peers(relay_ids, connected).len(),
                dial_in_progress,
                pending_outbox_count,
            )
            &&& opt_view(ui.tone) == Some(tone_name(tone(l)))
            &&& labels_built(lb, l)
            &&& ui.detail@ == lb.headline@
        },
        _ => false,
    }
}

/// The characters of each string of an optional list.
pub open spec fn opt_views(o: Option<Vec<String>>) -> Option<Seq<Seq<char>>> {
    match o {
        Some(v) => Some(views(v@)),
        None => None,
    }
}

fn any_relay_connected_exec(relay_ids: &[String], connected: &[String]) -> (b: bool)
    ensures
        b == any_relay_connected(views(relay_ids@), views(connected@)),
{
    let mut i: usize = 0;
    while i < relay_ids.len()
        invariant
            i <= relay_ids@.len(),
            forall|k: int| 0 <= k < i ==> !views(connected@).contains(#[trigger] views(relay_ids@)[k]),
        decreases relay_ids@.len() - i,
    {
        if is_connected(&relay_ids[i], connected) {
            assert(views(relay_ids@)[i as int] == relay_ids@[i as int]@);
            return true;
        }
        i = i + 1;
    }
    false
}

/// Record a connection-status change and build its UI event. `node_peers`
/// holds the connected peers when the node runs and is `None` when it does
/// not.
pub fn emit_p2p_status_changed(
    log: &mut ActivityLog,
    relay_hints: &P2pStatusRelayHints,
    pending_outbox_count: usize,
    node_peers: Option<Vec<String>>,
) -> (ui: P2pUiEvent)
    requires
        old(log).wf(),
    ensures
        final(log).wf(),
        final(log).dialing() == old(log).dialing(),
        final(log).last_at() == Some(ui.at),
        final(log).rows() == pushed(
            old(log).rows(),
            ActivityRow { at: ui.at, kind: "p2p_status_changed"@, detail: ui.detail@, content_type: None },
        ),
        status_event(ui, *relay_hints, pending_outbox_count, node_peers, old(log).dialing()),
{
    let dial = log.dial_in_progress;
    let running = node_peers.is_some();
    let connected = match node_peers {
        Some(v) => v,
        None => Vec::new(),
    };
    assert(views(connected@) == node_peer_views(node_peers));
    let relay_connected = any_relay_connected_exec(relay_hints.relay_peer_ids.as_slice(), connected.as_slice());
    let friends = connected_friend_peer_ids(relay_hints.relay_peer_ids.as_slice(), connected.as_slice());
    let layers = build_layers(
        running,
        relay_hints.relay_configured,
        relay_hints.relay_tcp_reachable,
        relay_connected,
        friends.len(),
        dial,
        pending_outbox_count,
    );
    let labels = build_labels(&layers);
    let tone_text = owned(visual_tone_str(visual_tone(&layers)));
    let base = log.push("p2p_status_changed", labels.headline.as_str());
    P2pUiEvent {
        at: base.at,
        kind: base.kind,
        detail: base.detail,
        sender_id: None,
        contact_id: None,
        content_id: None,
        body: None,
        content_type: None,
        expires_at: None,
        post_id: None,
        connected_peer_ids: Some(connected),
        tone: Some(tone_text),
        pending_outbox_count: Some(pending_outbox_count),
        dial_in_progress: Some(dial),
        layers: Some(layers),
        labels: Some(labels),
    }
}

} // verus!
