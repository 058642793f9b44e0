use inertia_core::content::{ContentEnvelope, ContentType, DeliveryStatus};
use inertia_core::engine::contacts::conversation_messages;
use inertia_core::engine::feed::{comment_body, ephemeral_feed_items, merge_feed};
use inertia_core::engine::outbox::{
    delivery_peer, outbox_content_type, outbox_flush_detail, outbox_flush_positions,
    status_after_send,
};
use inertia_core::engine::p2p::{
    any_relay_connected, choose_invite_addresses, connected_relay_circuit_addresses,
    relay_tcp_endpoint, relay_tcp_reachable_precheck, relays_to_redial, IpAddress,
};
use inertia_core::engine::settings::{
    effective_relays, relay_merge_from_invite, relay_reconnect_needed, resolve_invite_web_origin,
    resolve_listen_port,
};
use inertia_core::storage::{ConnectionState, Contact, FeedItem, InboxEntry, LocalPost, OutboxEntry, SentMessage};
use inertia_core::time::UtcTime;

const RELAY_A: &str = "/ip4/203.0.113.1/tcp/9000/p2p/12D3KooWAAAAAAAAAAAAAAAAAAAAAAAAAAAAAAAAAAAAAAAAAAAA";
const RELAY_B: &str = "/ip4/203.0.113.2/tcp/9000/p2p/12D3KooWBBBBBBBBBBBBBBBBBBBBBBBBBBBBBBBBBBBBBBBBBBBB";

fn t(secs: i64) -> UtcTime {
    UtcTime { secs, nanos: 0 }
}

fn contact(id: &str, name: &str, peer: Option<&str>) -> Contact {
    Contact {
        id: id.into(),
        phone_hash: None,
        display_name: name.into(),
        peer_id: peer.map(str::to_string),
        signing_pubkey: format!("{id}-key"),
        encryption_pubkey: "ek".into(),
        last_seen: None,
        connection_state: ConnectionState::Offline,
        multiaddrs: vec![],
    }
}

fn item(id: &str, at: i64) -> FeedItem {
    FeedItem {
        content_id: id.into(),
        author_id: "a".into(),
        author_name: "A".into(),
        body: String::new(),
        media_ref: None,
        created_at: t(at),
        expires_at: t(at + 10),
        is_own: false,
        is_archived: false,
        comment_count: 0,
    }
}

#[test]
fn conversation_is_ordered_by_time_and_stable() {
    let received = vec![
        InboxEntry {
            content_id: "r1".into(),
            sender_id: "s".into(),
            body: "hi".into(),
            media_ref: None,
            content_type: ContentType::Message,
            received_at: t(20),
            expires_at: t(99),
        },
        InboxEntry {
            content_id: "r2".into(),
            sender_id: "s".into(),
            body: "again".into(),
            media_ref: None,
            content_type: ContentType::Message,
            received_at: t(10),
            expires_at: t(99),
        },
    ];
    let sent = vec![SentMessage {
        content_id: "s1".into(),
        recipient_id: "s".into(),
        body: "yo".into(),
        sent_at: t(20),
        expires_at: t(99),
        status: DeliveryStatus::Sent,
    }];
    let msgs = conversation_messages(&received, &sent);
    let ids: Vec<&str> = msgs.iter().map(|m| m.content_id.as_str()).collect();
    assert_eq!(ids, vec!["r2", "r1", "s1"]);
    assert!(msgs[2].is_own);
    assert_eq!(msgs[2].delivery_status, Some(DeliveryStatus::Sent));
    assert!(msgs[0].delivery_status.is_none());
}

#[test]
fn feed_merges_archive_newest_first() {
    let archived = vec![item("a", 5), item("b", 30)];
    let ephemeral = vec![item("b", 30), item("c", 20), item("d", 30)];
    let feed = merge_feed(archived.clone(), ephemeral.clone(), true);
    let ids: Vec<&str> = feed.iter().map(|i| i.content_id.as_str()).collect();
    assert_eq!(ids, vec!["b", "d", "c", "a"]);
    let feed = merge_feed(archived, ephemeral, false);
    let ids: Vec<&str> = feed.iter().map(|i| i.content_id.as_str()).collect();
    assert_eq!(ids, vec!["b", "d", "c"]);
}

#[test]
fn ephemeral_feed_names_authors() {
    let contacts = vec![contact("c1", "Bea", None)];
    let local = vec![LocalPost { content_id: "p1".into(), body: "mine".into(), media_ref: None, created_at: t(1), expires_at: t(2) }];
    let inbox = vec![
        InboxEntry { content_id: "p2".into(), sender_id: "c1-key".into(), body: "hers".into(), media_ref: Some("m".into()), content_type: ContentType::Post, received_at: t(3), expires_at: t(4) },
        InboxEntry { content_id: "p3".into(), sender_id: "stranger".into(), body: "?".into(), media_ref: None, content_type: ContentType::Post, received_at: t(5), expires_at: t(6) },
    ];
    let items = ephemeral_feed_items("Me", "my-key", &contacts, &local, &inbox);
    assert_eq!(items.len(), 3);
    assert_eq!(items[0].author_name, "Me");
    assert!(items[0].is_own);
    assert_eq!(items[1].author_name, "Bea");
    assert_eq!(items[1].media_ref.as_deref(), Some("m"));
    assert_eq!(items[2].author_name, "Friend");
}

#[test]
fn comments_must_have_text() {
    assert_eq!(comment_body("  nice  ", "Me").unwrap(), "nice");
    assert_eq!(comment_body("   ", "Me").unwrap_err().message(), "invite error: comment cannot be empty");
    assert_eq!(comment_body("ok", "").unwrap_err().message(), "identity not initialized");
}

#[test]
fn flush_picks_undelivered_entries_of_the_peer() {
    let contacts = vec![contact("c1", "Bea", Some("peer-bea")), contact("c2", "Cy", Some("peer-cy"))];
    let entry = |id: &str, r: &str, s: DeliveryStatus| OutboxEntry {
        content_id: id.into(),
        recipient_id: r.into(),
        status: s,
        expires_at: t(9),
        retry_count: 0,
        ciphertext: vec![],
        content_type: ContentType::Post,
    };
    let outbox = vec![
        entry("a", "c1", DeliveryStatus::Pending),
        entry("b", "c2", DeliveryStatus::Pending),
        entry("c", "c1", DeliveryStatus::Delivered),
        entry("d", "c1", DeliveryStatus::Failed),
    ];
    assert_eq!(outbox_flush_positions(&contacts, &outbox, "peer-bea"), vec![0, 3]);
    assert_eq!(outbox_flush_detail(2), "Sent 2 pending item(s)");
    assert_eq!(outbox_content_type(&outbox, "b", "c2"), ContentType::Post);
    assert_eq!(outbox_content_type(&outbox, "b", "c1"), ContentType::Message);
    assert_eq!(delivery_peer(&contacts[0]).unwrap(), "peer-bea");
    assert_eq!(delivery_peer(&contact("x", "X", None)).unwrap_err().message(), "p2p error: recipient has no peer id");
    assert_eq!(status_after_send(true), DeliveryStatus::Sent);
    assert_eq!(status_after_send(false), DeliveryStatus::Failed);
}

#[test]
fn settings_pick_env_first() {
    assert_eq!(effective_relays(vec!["e".into()], Some(vec!["s".into()])), vec!["e".to_string()]);
    assert_eq!(effective_relays(vec![], Some(vec!["s".into()])), vec!["s".to_string()]);
    assert!(effective_relays(vec![], None).is_empty());
    assert_eq!(resolve_listen_port(Some(1), Some(2), 3), 1);
    assert_eq!(resolve_listen_port(None, None, 3), 3);
    assert_eq!(
        resolve_invite_web_origin(Some("  "), Some(" https://a.example "), Some("https://b.example")),
        Some("https://a.example".to_string())
    );
    assert_eq!(resolve_invite_web_origin(None, None, Some(" ")), None);
}

#[test]
fn invite_relay_merges_once() {
    let merged = relay_merge_from_invite(false, &[RELAY_A.to_string()], RELAY_B).unwrap();
    assert_eq!(merged, Some(vec![RELAY_A.to_string(), RELAY_B.to_string()]));
    assert_eq!(relay_merge_from_invite(false, &[RELAY_A.to_string()], RELAY_A).unwrap(), None);
    assert_eq!(relay_merge_from_invite(true, &[], RELAY_A).unwrap(), None);
    assert!(relay_reconnect_needed(&[RELAY_A.to_string()], &[RELAY_B.to_string()], true, true));
    assert!(!relay_reconnect_needed(&[RELAY_A.to_string()], &[RELAY_A.to_string()], true, true));
    assert!(!relay_reconnect_needed(&[], &[RELAY_A.to_string()], false, false));
}

#[test]
fn relay_sessions_drive_redials_and_circuits() {
    let relays = vec![RELAY_A.to_string(), format!(" {RELAY_B} "), "  ".to_string()];
    let peer_a = inertia_core::engine::relay_list::relay_peer_id(RELAY_A).unwrap();
    let connected = vec![peer_a];
    assert_eq!(relays_to_redial(&relays, &connected), vec![RELAY_B.to_string()]);
    assert!(any_relay_connected(&relays, &connected));
    assert!(!any_relay_connected(&relays, &[]));
    let circuits = connected_relay_circuit_addresses(&relays, &connected, "12D3KooWMe");
    assert_eq!(circuits, vec![format!("{RELAY_A}/p2p-circuit/p2p/12D3KooWMe")]);
}

#[test]
fn relay_endpoint_reads_host_and_port() {
    match relay_tcp_endpoint(RELAY_A) {
        Some((IpAddress::V4(ip), port)) => {
            assert_eq!(ip, [203, 0, 113, 1]);
            assert_eq!(port, 9000);
        }
        other => panic!("unexpected endpoint {other:?}"),
    }
    assert!(relay_tcp_endpoint("/p2p/12D3KooWAAAAAAAAAAAAAAAAAAAAAAAAAAAAAAAAAAAAAAAAAAAA").is_none());
    assert!(relay_tcp_endpoint("garbage").is_none());
}

#[test]
fn probe_precheck_prefers_live_session_then_fresh_cache() {
    assert_eq!(relay_tcp_reachable_precheck(true, Some((false, 1))), Some(true));
    assert_eq!(relay_tcp_reachable_precheck(false, Some((false, 59_999))), Some(false));
    assert_eq!(relay_tcp_reachable_precheck(false, Some((true, 60_000))), None);
    assert_eq!(relay_tcp_reachable_precheck(false, None), None);
}

#[test]
fn invite_addresses_fall_back_in_order() {
    let a = vec!["a".to_string()];
    let r = vec!["r".to_string()];
    let c = vec!["c".to_string()];
    assert_eq!(choose_invite_addresses(a.clone(), Some(r.clone()), c.clone()), a);
    assert_eq!(choose_invite_addresses(vec![], Some(r.clone()), c.clone()), r);
    assert_eq!(choose_invite_addresses(vec![], Some(vec![]), c.clone()), c);
}

#[test]
fn envelope_signing_bytes_are_json() {
    let e = ContentEnvelope::new_at(
        "id-1".into(),
        "sp".into(),
        "ep".into(),
        ContentType::Post,
        UtcTime { secs: 0, nanos: 0 },
        vec![1, 20, 255],
        vec![],
    );
    assert_eq!(e.expires_at.secs, 604800);
    let text = String::from_utf8(e.signing_bytes()).unwrap();
    assert_eq!(
        text,
        "{\"id\":\"id-1\",\"author_signing_pubkey\":\"sp\",\"author_encryption_pubkey\":\"ep\",\"content_type\":\"post\",\"created_at\":\"1970-01-01T00:00:00Z\",\"expires_at\":\"1970-01-08T00:00:00Z\",\"ciphertext\":[1,20,255]}"
    );
    let m = ContentEnvelope::new_message("sp".into(), "ep".into(), vec![], vec![]).unwrap();
    assert_eq!(m.id.len(), 36);
    assert_eq!(m.expires_at.secs - m.created_at.secs, 604800);
}


#[test]
fn checked_envelope_refuses_expiry_past_the_calendar() {
    let last = 8210266876799i64;
    let ok = ContentEnvelope::new_checked_at(
        "id".into(),
        "sp".into(),
        "ep".into(),
        ContentType::Comment,
        UtcTime { secs: last - 604800, nanos: 5 },
        vec![7],
        vec![8],
    )
    .unwrap();
    assert_eq!(ok.expires_at, UtcTime { secs: last, nanos: 5 });
    assert_eq!(ok.content_type, ContentType::Comment);
    assert!(ContentEnvelope::new_checked_at(
        "id".into(),
        "sp".into(),
        "ep".into(),
        ContentType::Message,
        UtcTime { secs: last - 604799, nanos: 0 },
        vec![],
        vec![],
    )
    .is_none());
    let now = ContentEnvelope::new_message("sp".into(), "ep".into(), vec![1], vec![2]).unwrap();
    assert_eq!(now.expires_at.secs, now.created_at.secs + 604800);
    assert_eq!(now.id.len(), 36);
}

#[test]
fn envelope_signing_bytes_match_serde_json_field_by_field() {
    let created = chrono::DateTime::parse_from_rfc3339("2030-01-02T03:04:05.5Z")
        .unwrap()
        .with_timezone(&chrono::Utc);
    let expires = created + chrono::Duration::seconds(604800);
    let e = ContentEnvelope::new_at(
        "i\"d\u{2028}".into(),
        "s\\p".into(),
        "ëp".into(),
        ContentType::Message,
        UtcTime { secs: created.timestamp(), nanos: created.timestamp_subsec_nanos() },
        vec![0, 9, 200],
        vec![1],
    );
    let expected = format!(
        "{{\"id\":{},\"author_signing_pubkey\":{},\"author_encryption_pubkey\":{},\"content_type\":\"message\",\"created_at\":{},\"expires_at\":{},\"ciphertext\":{}}}",
        serde_json::to_string(&e.id).unwrap(),
        serde_json::to_string(&e.author_signing_pubkey).unwrap(),
        serde_json::to_string(&e.author_encryption_pubkey).unwrap(),
        serde_json::to_string(&created).unwrap(),
        serde_json::to_string(&expires).unwrap(),
        serde_json::to_string(&e.ciphertext).unwrap(),
    );
    assert_eq!(String::from_utf8(e.signing_bytes()).unwrap(), expected);
}
