use inertia_core::engine::invite::is_local_dev_origin;
use inertia_core::identity::Identity;
use inertia_core::invite::{decode_payload, extract_payload, FriendInvite};
use inertia_core::time::UtcTime;

fn utc_of(text: &str) -> UtcTime {
    let t = chrono::DateTime::parse_from_rfc3339(text).expect("timestamp");
    UtcTime { secs: t.timestamp(), nanos: t.timestamp_subsec_nanos() }
}

fn text_field(v: &serde_json::Value, key: &str) -> String {
    v.get(key).and_then(|x| x.as_str()).expect(key).to_string()
}

/// Reads the invite JSON that a link carries, the way the app does.
fn parse_link(link: &str) -> FriendInvite {
    let bytes = decode_payload(link).expect("payload");
    let v: serde_json::Value = serde_json::from_slice(&bytes).expect("json");
    let multiaddrs = v
        .get("multiaddrs")
        .and_then(|m| m.as_array())
        .expect("multiaddrs")
        .iter()
        .map(|a| a.as_str().expect("addr").to_string())
        .collect();
    FriendInvite {
        version: v.get("version").and_then(|x| x.as_u64()).expect("version") as u8,
        display_name: text_field(&v, "display_name"),
        signing_pubkey: text_field(&v, "signing_pubkey"),
        encryption_pubkey: text_field(&v, "encryption_pubkey"),
        peer_id: v.get("peer_id").and_then(|x| x.as_str()).map(str::to_string),
        multiaddrs,
        created_at: utc_of(&text_field(&v, "created_at")),
        expires_at: utc_of(&text_field(&v, "expires_at")),
        nonce: text_field(&v, "nonce"),
        signature: text_field(&v, "signature"),
    }
}

#[test]
fn flags_localhost_dev() {
    assert!(is_local_dev_origin("http://localhost:5173"));
    assert!(is_local_dev_origin("http://127.0.0.1:4173"));
}

#[test]
fn allows_on_device_api_origin() {
    assert!(!is_local_dev_origin("http://127.0.0.1:4783"));
}

#[test]
fn round_trip_invite() {
    let id = Identity::generate("Alice");
    let invite = FriendInvite::new(
        &id,
        Some("12D3KooW".into()),
        vec!["/ip4/127.0.0.1/tcp/4001".into()],
    )
    .unwrap();
    let link = invite.to_link(Some("http://localhost:5173")).unwrap();
    let parsed = parse_link(&link);
    parsed.verify().unwrap();
    assert_eq!(parsed.display_name, "Alice");
    assert_eq!(parsed.safety_code(), invite.safety_code());
}

#[test]
fn app_link_round_trips_too() {
    let id = Identity::generate("Bob \"the builder\"\n");
    let invite = FriendInvite::new(&id, None, vec![]).unwrap();
    let link = invite.to_link(None).unwrap();
    assert!(link.starts_with("inertia://invite/"));
    let parsed = parse_link(&link);
    parsed.verify().unwrap();
    assert_eq!(parsed.display_name, "Bob \"the builder\"\n");
    assert_eq!(parsed.nonce, invite.nonce);
    assert_eq!(parsed.expires_at.secs - parsed.created_at.secs, 900);
}

#[test]
fn tampered_invite_fails_signature_check() {
    let id = Identity::generate("Alice");
    let mut invite = FriendInvite::new(&id, None, vec![]).unwrap();
    invite.display_name = "Mallory".into();
    let err = invite.verify().unwrap_err();
    assert_eq!(err.message(), "crypto error: invalid invite signature");
}

#[test]
fn expired_invite_is_refused() {
    let id = Identity::generate("Alice");
    let invite = FriendInvite::new(&id, None, vec![]).unwrap();
    let later = UtcTime { secs: invite.expires_at.secs + 1, nanos: 0 };
    let err = invite.verify_at(later).unwrap_err();
    assert_eq!(err.message(), "invite error: invite has expired");
    invite.verify_at(invite.expires_at).unwrap();
}

#[test]
fn unknown_version_is_refused() {
    let id = Identity::generate("Alice");
    let mut invite = FriendInvite::new(&id, None, vec![]).unwrap();
    invite.version = 2;
    assert_eq!(invite.verify().unwrap_err().message(), "crypto error: unsupported invite version");
}

#[test]
fn payload_is_found_in_every_link_shape() {
    assert_eq!(extract_payload("inertia://invite/abc").unwrap(), "abc");
    assert_eq!(extract_payload("  https://x.example/invite#def  ").unwrap(), "def");
    assert_eq!(extract_payload("https://x.example/#ghi").unwrap(), "ghi");
    assert_eq!(extract_payload("https://x.example/open?x=1&d=jkl").unwrap(), "jkl");
    assert_eq!(extract_payload("https://x.example/#").unwrap(), "https://x.example/#");
    assert_eq!(extract_payload("plain").unwrap(), "plain");
}

#[test]
fn bad_base64_payload_is_a_crypto_error() {
    let err = decode_payload("inertia://invite/@@@").unwrap_err();
    assert!(err.message().starts_with("crypto error: Invalid"));
}

#[test]
fn invite_names_the_issuer_as_contact() {
    let id = Identity::generate("Alice");
    let invite = FriendInvite::new(&id, Some("12D3KooWPeer".into()), vec!["/a".into()]).unwrap();
    let c = invite.to_contact();
    assert_eq!(c.id, id.signing_pubkey);
    assert_eq!(c.display_name, "Alice");
    assert_eq!(c.peer_id.as_deref(), Some("12D3KooWPeer"));
    assert_eq!(invite.safety_code(), id.signing_pubkey[..8].to_string());
}

#[test]
fn signing_bytes_match_serde_json_field_by_field() {
    let created = chrono::DateTime::parse_from_rfc3339("2024-05-06T07:08:09.123456789Z")
        .unwrap()
        .with_timezone(&chrono::Utc);
    let expires = created + chrono::Duration::seconds(900);
    let inv = FriendInvite {
        version: 1,
        display_name: "Zoë \"Z\" \\ \u{1}\n\t".into(),
        signing_pubkey: "ab".into(),
        encryption_pubkey: "cd".into(),
        peer_id: None,
        multiaddrs: vec!["/ip4/1.2.3.4/tcp/1".into(), "é/\u{7f}".into()],
        created_at: UtcTime { secs: created.timestamp(), nanos: created.timestamp_subsec_nanos() },
        expires_at: UtcTime { secs: expires.timestamp(), nanos: expires.timestamp_subsec_nanos() },
        nonce: "n-1".into(),
        signature: String::new(),
    };
    let expected = format!(
        "{{\"version\":1,\"display_name\":{},\"signing_pubkey\":{},\"encryption_pubkey\":{},\"peer_id\":{},\"multiaddrs\":{},\"created_at\":{},\"expires_at\":{},\"nonce\":{}}}",
        serde_json::to_string(&inv.display_name).unwrap(),
        serde_json::to_string(&inv.signing_pubkey).unwrap(),
        serde_json::to_string(&inv.encryption_pubkey).unwrap(),
        serde_json::to_string(&inv.peer_id).unwrap(),
        serde_json::to_string(&inv.multiaddrs).unwrap(),
        serde_json::to_string(&created).unwrap(),
        serde_json::to_string(&expires).unwrap(),
        serde_json::to_string(&inv.nonce).unwrap(),
    );
    assert_eq!(String::from_utf8(inv.signing_bytes().unwrap()).unwrap(), expected);
}
