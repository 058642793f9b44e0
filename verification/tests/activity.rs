use inertia_core::content::ContentType;
use inertia_core::engine::activity::{
    count_pending_outbox, emit_message_sent_ui_event, log_p2p_event, ActivityLog, MAX_EVENTS,
};
use inertia_core::p2p::{FriendRequest, P2pEvent};
use inertia_core::storage::{ConnectionState, Contact, InboxEntry, OutboxEntry};
use inertia_core::content::DeliveryStatus;
use inertia_core::time::UtcTime;

fn contact(id: &str, name: &str, peer: Option<&str>) -> Contact {
    Contact {
        id: id.into(),
        phone_hash: None,
        display_name: name.into(),
        peer_id: peer.map(str::to_string),
        signing_pubkey: format!("{id}-key"),
        encryption_pubkey: "ek".into(),
        last_seen: None,
        connection_state: ConnectionState::Offline,
        multiaddrs: vec![],
    }
}

fn outbox_entry(content_id: &str, recipient: &str, status: DeliveryStatus) -> OutboxEntry {
    OutboxEntry {
        content_id: content_id.into(),
        recipient_id: recipient.into(),
        status,
        expires_at: UtcTime { secs: 10, nanos: 0 },
        retry_count: 0,
        ciphertext: vec![],
        content_type: ContentType::Message,
    }
}

#[test]
fn log_p2p_event_broadcasts_message_payload() {
    let mut log = ActivityLog::new();
    let event = P2pEvent::MessageReceived {
        sender_id: "signer-abc".into(),
        body: "hello there".into(),
        content_id: "content-123".into(),
        content_type: ContentType::Message,
        contact_id: Some("contact-456".into()),
    };
    let ui = log_p2p_event(&mut log, &event, &[], &[], &[]);
    assert_eq!(ui.kind, "message_received");
    assert_eq!(ui.sender_id.as_deref(), Some("signer-abc"));
    assert_eq!(ui.contact_id.as_deref(), Some("contact-456"));
    assert_eq!(ui.content_id.as_deref(), Some("content-123"));
    assert_eq!(ui.body.as_deref(), Some("hello there"));
    assert_eq!(ui.content_type.as_deref(), Some("message"));
}

#[test]
fn log_p2p_event_broadcasts_delivery_ack_payload() {
    let mut log = ActivityLog::new();
    let event = P2pEvent::DeliveryAcked {
        content_id: "content-789".into(),
        peer_id: "12D3KooWRandomPeer".into(),
    };
    let ui = log_p2p_event(&mut log, &event, &[], &[], &[]);
    assert_eq!(ui.kind, "delivery_acked");
    assert_eq!(ui.content_id.as_deref(), Some("content-789"));
    assert_eq!(ui.content_type.as_deref(), Some("message"));
}

#[test]
fn emit_message_sent_ui_event_includes_payload() {
    let mut log = ActivityLog::new();
    let ui = emit_message_sent_ui_event(&mut log, &[], "content-abc", "contact-xyz", ContentType::Message);
    assert_eq!(ui.kind, "message_sent");
    assert_eq!(ui.content_id.as_deref(), Some("content-abc"));
    assert_eq!(ui.contact_id.as_deref(), Some("contact-xyz"));
    assert_eq!(ui.content_type.as_deref(), Some("message"));
}

#[test]
fn activity_push_returns_ui_event_without_payload() {
    let mut log = ActivityLog::new();
    let event = log.push("dial", "Connecting…");
    assert_eq!(event.kind, "dial");
    assert!(event.sender_id.is_none());
    assert!(event.content_id.is_none());
}

#[test]
fn log_keeps_the_newest_twenty() {
    let mut log = ActivityLog::new();
    for i in 0..25 {
        log.push("k", &format!("event {i}"));
    }
    let snap = log.snapshot();
    assert_eq!(snap.events.len(), MAX_EVENTS);
    assert_eq!(snap.events[0].detail, "event 24");
    assert_eq!(snap.events[19].detail, "event 5");
    assert_eq!(snap.last_activity_at, Some(snap.events[0].at));
}

#[test]
fn dial_flag_logs_only_when_starting() {
    let mut log = ActivityLog::new();
    log.set_dial_in_progress(true);
    assert!(log.snapshot().dial_in_progress);
    assert_eq!(log.snapshot().events[0].detail, "Connecting to relay and friends…");
    log.set_dial_in_progress(false);
    let snap = log.snapshot();
    assert!(!snap.dial_in_progress);
    assert_eq!(snap.events.len(), 1);
}

#[test]
fn peers_are_named_from_contacts() {
    let mut log = ActivityLog::new();
    let contacts = vec![contact("c1", "Bea", Some("12D3KooWBea"))];
    let ui = log_p2p_event(&mut log, &P2pEvent::PeerConnected("12D3KooWBea".into()), &contacts, &[], &[]);
    assert_eq!(ui.detail, "Connected to Bea");
    let ui = log_p2p_event(&mut log, &P2pEvent::PeerDisconnected("nobody".into()), &contacts, &[], &[]);
    assert_eq!(ui.detail, "friend disconnected");
    assert_eq!(ui.kind, "peer_disconnected");
}

#[test]
fn long_messages_are_previewed() {
    let mut log = ActivityLog::new();
    let body = "x".repeat(41);
    let event = P2pEvent::MessageReceived {
        sender_id: "c1-key".into(),
        body: body.clone(),
        content_id: "m1".into(),
        content_type: ContentType::Message,
        contact_id: None,
    };
    let contacts = vec![contact("c1", "Bea", None)];
    let inbox = vec![InboxEntry {
        content_id: "m1".into(),
        sender_id: "c1-key".into(),
        body: body.clone(),
        media_ref: None,
        content_type: ContentType::Message,
        received_at: UtcTime { secs: 1, nanos: 0 },
        expires_at: UtcTime { secs: 99, nanos: 5 },
    }];
    let ui = log_p2p_event(&mut log, &event, &contacts, &[], &inbox);
    assert_eq!(ui.detail, format!("Bea: {}…", "x".repeat(40)));
    assert_eq!(ui.expires_at, Some(UtcTime { secs: 99, nanos: 5 }));
    let short = P2pEvent::CommentReceived {
        post_id: "p".into(),
        content_id: "c".into(),
        author_id: "a".into(),
        body: "x".repeat(40),
    };
    let ui = log_p2p_event(&mut log, &short, &contacts, &[], &inbox);
    assert_eq!(ui.detail, format!("New comment: {}", "x".repeat(40)));
    assert_eq!(ui.post_id.as_deref(), Some("p"));
    assert_eq!(ui.content_type.as_deref(), Some("comment"));
}

#[test]
fn acks_find_their_contact() {
    let mut log = ActivityLog::new();
    let contacts = vec![contact("c1", "Bea", Some("peer-bea"))];
    let outbox = vec![outbox_entry("content-123456789", "c9", DeliveryStatus::Sent)];
    let event = P2pEvent::DeliveryAcked { content_id: "content-123456789".into(), peer_id: "peer-bea".into() };
    let ui = log_p2p_event(&mut log, &event, &contacts, &outbox, &[]);
    assert_eq!(ui.contact_id.as_deref(), Some("c9"));
    assert_eq!(ui.detail, "Delivered content- to Bea");
    let event = P2pEvent::DeliveryAcked { content_id: "other".into(), peer_id: "peer-bea".into() };
    let ui = log_p2p_event(&mut log, &event, &contacts, &outbox, &[]);
    assert_eq!(ui.contact_id.as_deref(), Some("c1"));
}

#[test]
fn friend_requests_and_blobs_are_logged() {
    let mut log = ActivityLog::new();
    let req = FriendRequest { display_name: "Cy".into(), signing_pubkey: "cy-key".into() };
    let ui = log_p2p_event(&mut log, &P2pEvent::FriendRequestReceived(req), &[], &[], &[]);
    assert_eq!(ui.kind, "friend_request");
    assert_eq!(ui.detail, "Friend request from Cy");
    assert_eq!(ui.sender_id.as_deref(), Some("cy-key"));
    assert_eq!(ui.body.as_deref(), Some("Cy"));
    let blob = P2pEvent::BlobNeeded { hash: "abcdef0123456789".into(), peer_id: "p".into() };
    let ui = log_p2p_event(&mut log, &blob, &[], &[], &[]);
    assert_eq!(ui.kind, "blob_sync");
    assert_eq!(ui.detail, "Fetching photo abcdef01 from friend");
}

#[test]
fn pending_outbox_counts_undelivered() {
    let outbox = vec![
        outbox_entry("a", "r", DeliveryStatus::Pending),
        outbox_entry("b", "r", DeliveryStatus::Sent),
        outbox_entry("c", "r", DeliveryStatus::Failed),
        outbox_entry("d", "r", DeliveryStatus::Delivered),
        outbox_entry("e", "r", DeliveryStatus::Expired),
    ];
    assert_eq!(count_pending_outbox(&outbox), 3);
}
