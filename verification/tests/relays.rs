use inertia_core::engine::relay_dial::{
    contact_dial_addrs, dedupe_relays, dial_addr_rank, inviter_dial_addrs, relay_peer_ids,
    sort_contact_dial_addrs,
};
use inertia_core::engine::relay_list::{
    merge_relay, parse_relay_multiaddrs, relay_lists_equivalent, relay_peer_id,
    select_invite_relay, validate_relay_list,
};
use inertia_core::storage::{ConnectionState, Contact};

const RELAY_A: &str = "/ip4/203.0.113.1/tcp/9000/p2p/12D3KooWAAAAAAAAAAAAAAAAAAAAAAAAAAAAAAAAAAAAAAAAAAAA";
const RELAY_B: &str = "/ip4/203.0.113.2/tcp/9000/p2p/12D3KooWBBBBBBBBBBBBBBBBBBBBBBBBBBBBBBBBBBBBBBBBBBBB";

#[test]
fn merge_relay_dedupes_by_peer_id() {
    let alt_ip = "/ip4/198.51.100.9/tcp/9000/p2p/12D3KooWAAAAAAAAAAAAAAAAAAAAAAAAAAAAAAAAAAAAAAAAAAAA";
    let merged = merge_relay(&[RELAY_A.to_string()], alt_ip);
    assert_eq!(merged.len(), 1);
    let merged = merge_relay(&[RELAY_A.to_string()], RELAY_B);
    assert_eq!(merged.len(), 2);
}

#[test]
fn select_invite_relay_prefers_primary() {
    let relays = vec![RELAY_A.to_string(), RELAY_B.to_string()];
    let peer_b = relay_peer_id(RELAY_B).unwrap();
    let chosen = select_invite_relay(&relays, &[peer_b.clone()]);
    assert_eq!(chosen.as_deref(), Some(RELAY_B));
    let peer_a = relay_peer_id(RELAY_A).unwrap();
    let chosen = select_invite_relay(&relays, &[peer_a, peer_b]);
    assert_eq!(chosen.as_deref(), Some(RELAY_A));
}

#[test]
fn parse_relay_multiaddrs_splits_lines_and_commas() {
    let raw = format!("{RELAY_A},\n{RELAY_B}");
    let parsed = parse_relay_multiaddrs(&raw);
    assert_eq!(parsed.len(), 2);
}

#[test]
fn single_relay_list_uses_primary_for_invite() {
    let relays = vec![RELAY_A.to_string()];
    let peer_a = relay_peer_id(RELAY_A).unwrap();
    let chosen = select_invite_relay(&relays, &[peer_a]);
    assert_eq!(chosen.as_deref(), Some(RELAY_A));
}

#[test]
fn merge_relay_keeps_primary_first_when_adding_second() {
    let merged = merge_relay(&[RELAY_A.to_string()], RELAY_B);
    assert_eq!(merged, vec![RELAY_A.to_string(), RELAY_B.to_string()]);
}

#[test]
fn merge_relay_on_empty_list_sets_primary() {
    let merged = merge_relay(&[], RELAY_A);
    assert_eq!(merged, vec![RELAY_A.to_string()]);
}

#[test]
fn relay_lists_equivalent_ignores_order() {
    let a = vec![RELAY_B.to_string(), RELAY_A.to_string()];
    let b = vec![RELAY_A.to_string(), RELAY_B.to_string()];
    assert!(relay_lists_equivalent(&a, &b));
}

#[test]
fn validate_relay_list_accepts_single_primary() {
    validate_relay_list(&[RELAY_A.to_string()]).expect("single relay valid");
}

#[test]
fn sort_contact_dial_addrs_prefers_circuit_paths() {
    let addrs = vec![
        "/ip4/8.8.8.8/tcp/4784".into(),
        "/ip4/1.2.3.4/tcp/9000/p2p/12D3KooWExampleRelay/p2p-circuit/p2p/12D3KooWExampleFriend"
            .into(),
    ];
    let sorted = sort_contact_dial_addrs(&addrs);
    assert!(sorted[0].contains("/p2p-circuit/"));
}

#[test]
fn contact_dial_addrs_builds_circuits_from_relays() {
    let contact = Contact {
        id: "c1".into(),
        phone_hash: None,
        display_name: "Friend".into(),
        peer_id: Some("12D3KooWFriend".into()),
        signing_pubkey: "pk".into(),
        encryption_pubkey: "ek".into(),
        last_seen: None,
        connection_state: ConnectionState::Offline,
        multiaddrs: vec!["/ip4/192.168.0.5/tcp/4784".into()],
    };
    let relays = vec!["/ip4/1.2.3.4/tcp/9000/p2p/12D3KooWExampleRelay".into()];
    let addrs = contact_dial_addrs(&contact, &relays);
    assert_eq!(addrs.len(), 1);
    assert!(addrs[0].contains("/p2p-circuit/"));
    assert!(!addrs[0].contains("192.168"));
}

#[test]
fn dedupe_relays_puts_priority_first() {
    let relays = vec![
        "/ip4/1.1.1.1/tcp/9000/p2p/12D3KooWB".into(),
        "/ip4/2.2.2.2/tcp/9000/p2p/12D3KooWA".into(),
    ];
    let ordered = dedupe_relays("/ip4/2.2.2.2/tcp/9000/p2p/12D3KooWA", &relays);
    assert_eq!(ordered.len(), 2);
    assert!(ordered[0].contains("2.2.2.2"));
}

#[test]
fn merge_relay_twice_changes_nothing_more() {
    let once = merge_relay(&[RELAY_A.to_string()], RELAY_B);
    let twice = merge_relay(&once, RELAY_B);
    assert_eq!(once, twice);
}

#[test]
fn relay_lists_differ_when_a_relay_is_missing() {
    let a = vec![RELAY_A.to_string()];
    let b = vec![RELAY_A.to_string(), RELAY_B.to_string()];
    assert!(!relay_lists_equivalent(&a, &b));
    assert!(relay_lists_equivalent(&a, &a));
    let padded = vec![format!("  {RELAY_A}  "), String::new()];
    assert!(relay_lists_equivalent(&a, &padded));
}

#[test]
fn invalid_relay_is_rejected_with_reason() {
    let err = validate_relay_list(&["12D3KooWAAAA".to_string()]).unwrap_err();
    assert!(err.message().starts_with("p2p error: invalid relay multiaddr"));
    let bare = "/p2p/12D3KooWAAAAAAAAAAAAAAAAAAAAAAAAAAAAAAAAAAAAAAAAAAAA".to_string();
    let err = validate_relay_list(&[bare]).unwrap_err();
    assert!(err.message().contains("must be a full address"));
}

#[test]
fn relay_peer_ids_skip_addresses_without_peer() {
    let relays = vec![RELAY_A.to_string(), "/ip4/1.2.3.4/tcp/9000".to_string()];
    let ids = relay_peer_ids(&relays);
    assert_eq!(ids, vec![relay_peer_id(RELAY_A).unwrap()]);
}

#[test]
fn circuit_addresses_rank_before_direct_ones() {
    assert_eq!(dial_addr_rank("/ip4/1.2.3.4/tcp/9000/p2p/X/p2p-circuit/p2p/Y"), 0);
    assert_eq!(dial_addr_rank("/ip4/1.2.3.4/tcp/9000"), 1);
}

#[test]
fn inviter_dial_addrs_go_through_relays() {
    let relays = vec![RELAY_A.to_string()];
    let addrs = inviter_dial_addrs(Some("12D3KooWInviter"), RELAY_B, &["/ip4/8.8.8.8/tcp/1".to_string()], &relays);
    assert_eq!(addrs.len(), 2);
    assert!(addrs.iter().all(|a| a.contains("/p2p-circuit/p2p/12D3KooWInviter")));
}

#[test]
fn parsed_relays_reparse_from_comma_list() {
    let raw = format!("  {RELAY_A} ,\n\n{RELAY_B},, ");
    let parsed = parse_relay_multiaddrs(&raw);
    assert_eq!(parsed, vec![RELAY_A.to_string(), RELAY_B.to_string()]);
    assert_eq!(parse_relay_multiaddrs(&parsed.join(",")), parsed);
    assert!(parse_relay_multiaddrs(" ,\n ").is_empty());
}
