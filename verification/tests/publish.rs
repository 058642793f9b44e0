use inertia_core::engine::archive::profile_item_record;
use inertia_core::content::{ContentEnvelope, ContentType, DeliveryStatus};
use inertia_core::engine::invite::{
    accept_invite_step, AcceptAction, AcceptStage,
    accept_dial_plan, check_invite_not_redeemed, invite_relay_for_create, invite_share_origin,
    inviter_peer_id, require_invite_circuits,
};
use inertia_core::engine::publish::{
    comment_outbox_entries, local_post_record, pending_outbox_entry, post_outbox_entries,
    profile_comment_route, sent_message_record, CommentRoute,
};
use inertia_core::engine::relay_list::relay_peer_id;
use inertia_core::error::CoreError;
use inertia_core::storage::{ConnectionState, Contact};
use inertia_core::time::UtcTime;

const RELAY_A: &str = "/ip4/203.0.113.1/tcp/9000/p2p/12D3KooWAAAAAAAAAAAAAAAAAAAAAAAAAAAAAAAAAAAAAAAAAAAA";
const RELAY_B: &str = "/ip4/203.0.113.2/tcp/9000/p2p/12D3KooWBBBBBBBBBBBBBBBBBBBBBBBBBBBBBBBBBBBBBBBBBBBB";

fn at(secs: i64) -> UtcTime {
    UtcTime { secs, nanos: 0 }
}

fn contact(id: &str) -> Contact {
    Contact {
        id: id.into(),
        phone_hash: None,
        display_name: id.to_uppercase(),
        peer_id: None,
        signing_pubkey: format!("{id}-key"),
        encryption_pubkey: "ek".into(),
        last_seen: None,
        connection_state: ConnectionState::Offline,
        multiaddrs: vec![],
    }
}

fn envelope(id: &str, cipher: Vec<u8>, ty: ContentType) -> ContentEnvelope {
    ContentEnvelope {
        id: id.into(),
        author_signing_pubkey: "sp".into(),
        author_encryption_pubkey: "ep".into(),
        content_type: ty,
        created_at: at(1_000),
        expires_at: at(1_000 + 604_800),
        ciphertext: cipher,
        signature: vec![9],
    }
}

#[test]
fn pending_entry_carries_envelope_ciphertext_and_expiry() {
    let env = envelope("env-1", vec![1, 2, 3], ContentType::Message);
    let e = pending_outbox_entry("c1", "bob", ContentType::Message, &env);
    assert_eq!(e.content_id, "c1");
    assert_eq!(e.recipient_id, "bob");
    assert_eq!(e.status, DeliveryStatus::Pending);
    assert_eq!(e.retry_count, 0);
    assert_eq!(e.ciphertext, vec![1, 2, 3]);
    assert_eq!(e.expires_at, at(605_800));
    assert_eq!(e.content_type, ContentType::Message);
}

#[test]
fn post_fan_out_uses_post_id_for_every_contact() {
    let contacts = vec![contact("a"), contact("b")];
    let envs = vec![
        envelope("e-a", vec![1], ContentType::Post),
        envelope("e-b", vec![2], ContentType::Post),
    ];
    let entries = post_outbox_entries("post-1", &contacts, &envs);
    assert_eq!(entries.len(), 2);
    assert_eq!(entries[0].content_id, "post-1");
    assert_eq!(entries[1].content_id, "post-1");
    assert_eq!(entries[0].recipient_id, "a");
    assert_eq!(entries[1].recipient_id, "b");
    assert_eq!(entries[1].ciphertext, vec![2]);
    assert_eq!(entries[0].content_type, ContentType::Post);
}

#[test]
fn comment_fan_out_uses_each_envelope_id() {
    let contacts = vec![contact("a"), contact("b")];
    let envs = vec![
        envelope("e-a", vec![1], ContentType::Comment),
        envelope("e-b", vec![2], ContentType::Comment),
    ];
    let entries = comment_outbox_entries(&contacts, &envs);
    assert_eq!(entries[0].content_id, "e-a");
    assert_eq!(entries[1].content_id, "e-b");
    assert_eq!(entries[1].content_type, ContentType::Comment);
    assert!(comment_outbox_entries(&[], &[]).is_empty());
}

#[test]
fn local_post_lives_a_week() {
    let p = local_post_record("Alice", "p1", "hello", Some("blob"), at(100)).unwrap();
    assert_eq!(p.content_id, "p1");
    assert_eq!(p.body, "hello");
    assert_eq!(p.media_ref.as_deref(), Some("blob"));
    assert_eq!(p.created_at, at(100));
    assert_eq!(p.expires_at, at(100 + 604_800));
    let err = local_post_record("", "p1", "hello", None, at(100)).unwrap_err();
    assert!(matches!(err, CoreError::IdentityNotInitialized));
}

#[test]
fn sent_message_copies_envelope_times() {
    let env = envelope("m1", vec![], ContentType::Message);
    let s = sent_message_record(&env, "bob", "hi");
    assert_eq!(s.content_id, "m1");
    assert_eq!(s.recipient_id, "bob");
    assert_eq!(s.body, "hi");
    assert_eq!(s.sent_at, at(1_000));
    assert_eq!(s.expires_at, at(605_800));
    assert_eq!(s.status, DeliveryStatus::Pending);
}

#[test]
fn profile_comment_routes() {
    let (b, route) = profile_comment_route("  nice  ", "Alice", true, None).unwrap();
    assert_eq!(b, "nice");
    assert!(matches!(route, CommentRoute::OwnItem));
    let (_, route) = profile_comment_route("nice", "Alice", false, Some("bob")).unwrap();
    assert!(matches!(route, CommentRoute::Owner(ref id) if id == "bob"));
    let err = profile_comment_route("nice", "Alice", false, None).unwrap_err();
    assert_eq!(
        err.message(),
        "invite error: owner_contact_id required for friend profile comments"
    );
    let err = profile_comment_route("   ", "Alice", true, None).unwrap_err();
    assert_eq!(err.message(), "invite error: comment cannot be empty");
    let err = profile_comment_route("x", "", true, None).unwrap_err();
    assert!(matches!(err, CoreError::IdentityNotInitialized));
}

#[test]
fn invite_relay_prefers_connected_then_first() {
    let relays = vec![RELAY_A.to_string(), RELAY_B.to_string()];
    let peer_b = relay_peer_id(RELAY_B).unwrap();
    assert_eq!(invite_relay_for_create(&relays, &[peer_b]).unwrap(), RELAY_B);
    assert_eq!(invite_relay_for_create(&relays, &[]).unwrap(), RELAY_A);
    let err = invite_relay_for_create(&[], &[]).unwrap_err();
    assert_eq!(err.message(), "invite error: relay multiaddr is not configured");
    let err = invite_relay_for_create(&["garbage".to_string()], &[]).unwrap_err();
    assert!(err.message().starts_with("p2p error: invalid relay multiaddr"));
}

#[test]
fn invite_needs_circuits_and_shareable_origin() {
    assert!(require_invite_circuits(&["x".to_string()]).is_ok());
    let err = require_invite_circuits(&[]).unwrap_err();
    assert_eq!(
        err.message(),
        "invite error: no relay circuit address — check relay connection and try again"
    );
    assert_eq!(invite_share_origin(Some("http://localhost:5173")), None);
    assert_eq!(
        invite_share_origin(Some("https://inertia.example")).as_deref(),
        Some("https://inertia.example")
    );
    assert_eq!(invite_share_origin(None), None);
}

#[test]
fn accept_checks_and_dial_plan() {
    assert!(check_invite_not_redeemed(false).is_ok());
    let err = check_invite_not_redeemed(true).unwrap_err();
    assert_eq!(err.message(), "invite error: you already accepted this invite on this device");
    assert_eq!(inviter_peer_id(Some("12D3KooWFriend")).unwrap(), "12D3KooWFriend");
    let err = inviter_peer_id(None).unwrap_err();
    assert_eq!(
        err.message(),
        "invite error: inviter is not reachable — they must be online with P2P running"
    );
    let (addrs, limit) = accept_dial_plan("12D3KooWFriend", RELAY_A, &[], &[RELAY_B.to_string()]).unwrap();
    assert_eq!(
        addrs,
        vec![
            format!("{RELAY_A}/p2p-circuit/p2p/12D3KooWFriend"),
            format!("{RELAY_B}/p2p-circuit/p2p/12D3KooWFriend"),
        ]
    );
    assert_eq!(limit, 2);
    let err = accept_dial_plan("12D3KooWFriend", "  ", &[], &[]).unwrap_err();
    assert_eq!(
        err.message(),
        "invite error: inviter has no relay circuit addresses — ask for a fresh invite"
    );
}

#[test]
fn profile_item_sorts_after_existing_items() {
    let p = profile_item_record("i1", "hash", Some("cap"), None, 3, at(50));
    assert_eq!(p.id, "i1");
    assert_eq!(p.blob_hash, "hash");
    assert_eq!(p.caption.as_deref(), Some("cap"));
    assert_eq!(p.content_id, None);
    assert_eq!(p.sort_order, 3);
    assert_eq!(p.created_at, at(50));
}

#[test]
fn accept_steps_refuse_a_redeemed_invite_first() {
    match accept_invite_step(AcceptStage::Start, true, Some("12D3KooWFriend"), RELAY_A, &[], &[]) {
        AcceptAction::Fail(e) => assert_eq!(
            e.message(),
            "invite error: you already accepted this invite on this device"
        ),
        other => panic!("unexpected {other:?}"),
    }
    assert!(matches!(
        accept_invite_step(AcceptStage::Start, false, None, RELAY_A, &[], &[]),
        AcceptAction::ApplyRelay
    ));
    assert!(matches!(
        accept_invite_step(AcceptStage::RelayApplied, false, None, RELAY_A, &[], &[]),
        AcceptAction::Fail(CoreError::Invite(_))
    ));
    assert!(matches!(
        accept_invite_step(AcceptStage::RelayApplied, false, Some("p"), RELAY_A, &[], &[]),
        AcceptAction::EnsureRelayReady
    ));
    match accept_invite_step(AcceptStage::RelayReady, false, Some("12D3KooWFriend"), RELAY_A, &[], &[]) {
        AcceptAction::DialInviter { addrs, limit } => {
            assert_eq!(addrs, vec![format!("{RELAY_A}/p2p-circuit/p2p/12D3KooWFriend")]);
            assert_eq!(limit, 1);
        }
        other => panic!("unexpected {other:?}"),
    }
    assert!(matches!(
        accept_invite_step(AcceptStage::InviterConnected, false, Some("p"), RELAY_A, &[], &[]),
        AcceptAction::Redeem
    ));
    assert!(matches!(
        accept_invite_step(AcceptStage::Redeemed, false, Some("p"), RELAY_A, &[], &[]),
        AcceptAction::StoreContact
    ));
}
