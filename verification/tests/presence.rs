use chrono::Utc;
use inertia_core::engine::contacts::{connected_friend_peer_ids, presence_at, presence_for_contact};
use inertia_core::storage::{ConnectionState, Contact};
use inertia_core::time::UtcTime;

fn utc(t: chrono::DateTime<Utc>) -> UtcTime {
    UtcTime { secs: t.timestamp(), nanos: t.timestamp_subsec_nanos() }
}

fn sample_contact(peer_id: Option<&str>, multiaddrs: Vec<String>, last_seen: Option<UtcTime>) -> Contact {
    Contact {
        id: "c1".into(),
        phone_hash: None,
        display_name: "Alex".into(),
        peer_id: peer_id.map(str::to_string),
        signing_pubkey: "pk".into(),
        encryption_pubkey: "ek".into(),
        last_seen,
        connection_state: ConnectionState::Offline,
        multiaddrs,
    }
}

#[test]
fn live_peer_session_is_online() {
    let contact = sample_contact(Some("12D3KooW"), vec![], None);
    let connected = vec!["12D3KooW".to_string()];
    assert_eq!(presence_for_contact(&contact, &connected), ConnectionState::Online);
}

#[test]
fn recent_last_seen_without_live_session_is_reachable() {
    let contact = sample_contact(
        Some("12D3KooW"),
        vec!["/ip4/1.2.3.4/tcp/9000".into()],
        Some(utc(Utc::now() - chrono::Duration::hours(1))),
    );
    assert_eq!(presence_for_contact(&contact, &[]), ConnectionState::Reachable);
}

#[test]
fn stale_last_seen_without_live_session_is_unreachable() {
    let contact = sample_contact(
        Some("12D3KooW"),
        vec!["/ip4/1.2.3.4/tcp/9000".into()],
        Some(utc(Utc::now() - chrono::Duration::hours(25))),
    );
    assert_eq!(presence_for_contact(&contact, &[]), ConnectionState::Unreachable);
}

#[test]
fn no_peer_hints_is_unreachable() {
    let contact = sample_contact(None, vec![], None);
    assert_eq!(presence_for_contact(&contact, &[]), ConnectionState::Unreachable);
}

#[test]
fn seen_exactly_a_day_ago_is_still_reachable() {
    let now = UtcTime { secs: 1_700_000_000, nanos: 0 };
    let seen = UtcTime { secs: 1_700_000_000 - 24 * 3600, nanos: 0 };
    let contact = sample_contact(Some("p"), vec![], Some(seen));
    assert_eq!(presence_at(&contact, &[], now), ConnectionState::Reachable);
    let older = UtcTime { secs: 1_700_000_000 - 24 * 3600 - 1, nanos: 0 };
    let contact = sample_contact(Some("p"), vec![], Some(older));
    assert_eq!(presence_at(&contact, &[], now), ConnectionState::Unreachable);
}

#[test]
fn relays_are_not_friends() {
    let friends = connected_friend_peer_ids(&["relay".to_string()], &["relay".to_string(), "bob".to_string()]);
    assert_eq!(friends, vec!["bob".to_string()]);
}
