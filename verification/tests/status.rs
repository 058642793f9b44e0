use inertia_core::engine::activity::{ActivityLog, P2pStatusRelayHints};
use inertia_core::engine::activity::{emit_p2p_status_changed, refresh_relay_hints_from_store};
use inertia_core::engine::p2p_status::{build_labels, build_layers, visual_tone, visual_tone_str, VisualTone};
use inertia_core::engine::status::{p2p_status_snapshot, NodeFacts};

const RELAY_A: &str = "/ip4/203.0.113.1/tcp/9000/p2p/12D3KooWAAAAAAAAAAAAAAAAAAAAAAAAAAAAAAAAAAAAAAAAAAAA";

#[test]
fn relay_connecting_when_tcp_ok_but_no_session() {
    let layers = build_layers(true, true, Some(true), false, 0, false, 0);
    assert_eq!(layers.relay, "connecting");
    let labels = build_labels(&layers);
    assert!(labels.relay.contains("establishing P2P connection"));
    assert_eq!(labels.headline, "Connecting to relay…");
}

#[test]
fn friends_online_headline() {
    let layers = build_layers(true, true, Some(true), true, 2, false, 0);
    assert_eq!(layers.friends, "online");
    let labels = build_labels(&layers);
    assert_eq!(labels.headline, "2 friends online");
    assert_eq!(visual_tone_str(visual_tone(&layers)), "online");
}

#[test]
fn stopped_node_is_off() {
    let layers = build_layers(false, true, None, false, 0, false, 0);
    assert_eq!(layers.node, "off");
    assert_eq!(layers.relay, "connecting");
    assert_eq!(layers.friends, "offline");
    assert!(visual_tone(&layers) == VisualTone::Off);
}

#[test]
fn unreachable_relay_is_an_error() {
    let layers = build_layers(true, true, Some(false), false, 0, false, 0);
    assert_eq!(layers.relay, "unreachable");
    assert_eq!(visual_tone_str(visual_tone(&layers)), "error");
}

#[test]
fn pending_outbox_is_sending() {
    let layers = build_layers(true, false, None, false, 0, false, 3);
    assert_eq!(layers.sync, "sending");
    assert_eq!(layers.relay, "not_configured");
    let labels = build_labels(&layers);
    assert!(labels.sync.contains('3'));
    assert_eq!(visual_tone_str(visual_tone(&layers)), "warn");
}

#[test]
fn snapshot_counts_relay_and_friend_sessions() {
    let relay_id = inertia_core::engine::relay_list::relay_peer_id(RELAY_A).unwrap();
    let node = NodeFacts {
        peer_id: "12D3KooWSelf".into(),
        listen_addresses: vec!["/ip4/0.0.0.0/tcp/4784".into()],
        connected_peer_ids: vec![relay_id.clone(), "12D3KooWFriend".into()],
    };
    let log = ActivityLog::new();
    let st = p2p_status_snapshot(vec![RELAY_A.to_string()], Some(true), 0, log.snapshot(), Some(node));
    assert!(st.running);
    assert_eq!(st.relays_connected_count, 1);
    assert!(st.relay_connected);
    assert_eq!(st.layers.friends_online_count, 1);
    assert_eq!(st.labels.headline, "1 friend online");
    assert_eq!(st.tone, "online");
}

#[test]
fn snapshot_without_node_is_off() {
    let log = ActivityLog::new();
    let st = p2p_status_snapshot(vec![], None, 2, log.snapshot(), None);
    assert!(!st.running);
    assert!(st.peer_id.is_none());
    assert!(!st.relay_configured);
    assert_eq!(st.pending_outbox_count, 2);
    assert_eq!(st.tone, "off");
}

#[test]
fn status_changed_event_carries_layers() {
    let mut hints = P2pStatusRelayHints::default();
    refresh_relay_hints_from_store(&mut hints, &[RELAY_A.to_string()], Some(true));
    assert!(hints.relay_configured);
    assert_eq!(hints.relay_peer_ids.len(), 1);
    let relay_id = hints.relay_peer_ids[0].clone();
    let mut log = ActivityLog::new();
    let ui = emit_p2p_status_changed(&mut log, &hints, 1, Some(vec![relay_id]));
    assert_eq!(ui.kind, "p2p_status_changed");
    assert_eq!(ui.pending_outbox_count, Some(1));
    assert_eq!(ui.dial_in_progress, Some(false));
    let layers = ui.layers.expect("layers");
    assert_eq!(layers.relay, "connected");
    assert_eq!(layers.sync, "sending");
    assert_eq!(ui.detail, ui.labels.expect("labels").headline);
    assert_eq!(log.snapshot().events.len(), 1);
}

#[test]
fn refresh_keeps_cached_probe_when_none_given() {
    let mut hints = P2pStatusRelayHints::default();
    refresh_relay_hints_from_store(&mut hints, &[RELAY_A.to_string()], Some(false));
    refresh_relay_hints_from_store(&mut hints, &[], None);
    assert!(!hints.relay_configured);
    assert_eq!(hints.relay_tcp_reachable, Some(false));
}
