use inertia_core::api::error::{status_for_error, ErrorCode};
use inertia_core::api::util::base64_decode;
use inertia_core::content::{MediaKind, MediaManifest};
use inertia_core::engine::archive::{
    archive_folder_name, check_upload_chunk, friend_profile_peer, missing_profile_photo,
    plan_archive_upload, profile_blob_hashes,
};
use inertia_core::engine::media::{
    media_author_peer, media_fetch_start, media_fetch_status, media_transport, missing_chunks,
    MediaFetchStart, MediaFetchState,
};
use inertia_core::engine::outbox::{author_key_for_peer, p2p_event_plan, BlobAction};
use inertia_core::error::CoreError;
use inertia_core::hex::decode_would_split_char;
use inertia_core::identity::{apply_profile_update, check_profile_update, initialize_identity, Identity};
use inertia_core::p2p::P2pEvent;
use inertia_core::storage::{ConnectionState, Contact, FeedItem};
use inertia_core::time::UtcTime;

fn contact(id: &str, peer: Option<&str>) -> Contact {
    Contact {
        id: id.into(),
        phone_hash: None,
        display_name: id.to_uppercase(),
        peer_id: peer.map(str::to_string),
        signing_pubkey: format!("{id}-key"),
        encryption_pubkey: "ek".into(),
        last_seen: None,
        connection_state: ConnectionState::Offline,
        multiaddrs: vec![],
    }
}

fn manifest(chunks: usize) -> MediaManifest {
    MediaManifest {
        root_hash: "root".into(),
        kind: MediaKind::Video,
        mime: "video/mp4".into(),
        total_bytes: 10,
        chunk_size: 4,
        chunk_hashes: (0..chunks).map(|i| format!("h{i}")).collect(),
        thumb_hash: "t".into(),
        duration_ms: 1,
    }
}

#[test]
fn errors_map_to_http_statuses() {
    assert_eq!(status_for_error(&CoreError::Invite("x".into()), None), 400);
    assert_eq!(status_for_error(&CoreError::ProfileAlreadyExists, None), 409);
    assert_eq!(status_for_error(&CoreError::ContactNotFound("x".into()), None), 404);
    assert_eq!(status_for_error(&CoreError::Io("x".into()), None), 500);
    assert_eq!(status_for_error(&CoreError::Io("x".into()), Some(ErrorCode::RelayUnreachable)), 503);
    assert_eq!(status_for_error(&CoreError::Io("x".into()), Some(ErrorCode::FriendOffline)), 504);
}

#[test]
fn standard_base64_uploads() {
    assert_eq!(base64_decode("aGk=").unwrap(), b"hi".to_vec());
    assert!(base64_decode("a").unwrap_err().starts_with("invalid base64: "));
}

#[test]
fn media_status_follows_local_chunks_and_jobs() {
    let m = manifest(3);
    let st = media_fetch_status("root", Some(&m), true, None, 0).unwrap();
    assert_eq!(st.state, MediaFetchState::Complete);
    assert_eq!(st.chunks_done, 3);
    assert_eq!(st.transport, "local");
    let st = media_fetch_status("root", Some(&m), false, None, 1).unwrap();
    assert_eq!(st.state, MediaFetchState::Idle);
    assert_eq!(st.chunks_done, 1);
    let err = media_fetch_status("nope", None, false, None, 0).unwrap_err();
    assert_eq!(err.message(), "content not found: nope");
    assert_eq!(media_fetch_start(true, None), MediaFetchStart::AssembleLocal);
    assert_eq!(media_fetch_start(false, Some(MediaFetchState::Fetching)), MediaFetchStart::AlreadyFetching);
    assert_eq!(media_fetch_start(false, Some(MediaFetchState::Failed)), MediaFetchStart::Download);
    assert_eq!(media_transport(true), "direct");
    assert_eq!(missing_chunks(&[true, false, true, false]), vec![1, 3]);
}

#[test]
fn media_author_is_found_through_the_feed() {
    let item = FeedItem {
        content_id: "p".into(),
        author_id: "bea-key".into(),
        author_name: "Bea".into(),
        body: String::new(),
        media_ref: Some("root".into()),
        created_at: UtcTime { secs: 0, nanos: 0 },
        expires_at: UtcTime { secs: 1, nanos: 0 },
        is_own: false,
        is_archived: false,
        comment_count: 0,
    };
    let bea_peer = "12D3KooWAAAAAAAAAAAAAAAAAAAAAAAAAAAAAAAAAAAAAAAAAAAA";
    let online = vec![contact("bea", Some(bea_peer))];
    assert_eq!(media_author_peer(&[item.clone()], &online, "root").unwrap(), bea_peer);
    let garbled = vec![contact("bea", Some("peer-bea"))];
    assert_eq!(
        media_author_peer(&[item.clone()], &garbled, "root").unwrap_err().message(),
        "p2p error: invalid author peer id"
    );
    let offline = vec![contact("bea", None)];
    assert_eq!(media_author_peer(&[item.clone()], &offline, "root").unwrap_err().message(), "p2p error: author is offline");
    assert_eq!(media_author_peer(&[item.clone()], &[], "root").unwrap_err().message(), "p2p error: author contact not found");
    assert_eq!(media_author_peer(&[item], &online, "other").unwrap_err().message(), "content not found: other");
}

#[test]
fn archive_requests_are_checked() {
    assert_eq!(archive_folder_name("  Trips ").unwrap(), "Trips");
    assert_eq!(archive_folder_name(" ").unwrap_err().message(), "invite error: folder name cannot be empty");
    assert_eq!(plan_archive_upload("a.bin", 1025, 512).unwrap(), ("a.bin".to_string(), 3));
    assert_eq!(plan_archive_upload("a.bin", 1024, 512).unwrap().1, 2);
    assert_eq!(plan_archive_upload("a.bin", 0, 512).unwrap_err().message(), "invite error: file cannot be empty");
    assert_eq!(check_upload_chunk(false, 5, 3).unwrap_err().message(), "invite error: chunk index 5 out of range (0..3)");
    assert_eq!(check_upload_chunk(true, 0, 3).unwrap_err().message(), "invite error: upload already completed");
    assert!(check_upload_chunk(false, 2, 3).is_ok());
    assert_eq!(missing_profile_photo("p1").message(), "content not found: profile photo p1");
    assert_eq!(profile_blob_hashes(vec!["a".into()], Some("av".into())), vec!["a".to_string(), "av".to_string()]);
}

#[test]
fn profile_visits_need_an_online_peer() {
    let peer = "12D3KooWAAAAAAAAAAAAAAAAAAAAAAAAAAAAAAAAAAAAAAAAAAAA";
    let c = contact("bea", Some(peer));
    assert_eq!(friend_profile_peer("bea", &c, &[peer.to_string()]).unwrap(), peer);
    assert_eq!(friend_profile_peer("bea", &c, &[]).unwrap_err().message(), "p2p error: friend bea is offline");
    let none = contact("bea", None);
    assert_eq!(
        friend_profile_peer("bea", &none, &[]).unwrap_err().message(),
        "p2p error: friend bea has no peer id (offline)"
    );
    let bad = contact("bea", Some("not-a-peer"));
    assert!(friend_profile_peer("bea", &bad, &[]).unwrap_err().message().starts_with("p2p error: invalid peer id: "));
}

#[test]
fn identity_setup_and_profile_updates() {
    let blank = Identity::from_persisted("pk".into(), "ek".into(), None, String::new(), String::new(), None, None).unwrap();
    let made = initialize_identity(&blank, false, "Alice").unwrap();
    assert!(made.is_initialized());
    assert_eq!(initialize_identity(&made, false, "Bob").err().unwrap().message(), "a profile already exists on this device");
    assert_eq!(initialize_identity(&blank, true, "Bob").err().unwrap().message(), "a profile already exists on this device");
    let mut id = made;
    assert!(check_profile_update(&id, "  ").is_err());
    assert!(check_profile_update(&blank, "Bob").is_err());
    check_profile_update(&id, "Al").unwrap();
    apply_profile_update(&mut id, " Al ", " hi ");
    assert_eq!(id.display_name, "Al");
    assert_eq!(id.bio, "hi");
}

#[test]
fn network_events_plan_follow_up_work() {
    let plan = p2p_event_plan(&P2pEvent::PeerConnected("p".into()));
    assert_eq!(plan.flush_and_sync_peer.as_deref(), Some("p"));
    assert!(plan.emit_status);
    let plan = p2p_event_plan(&P2pEvent::DeliveryAcked { content_id: "c".into(), peer_id: "p".into() });
    assert!(matches!(plan.blob, BlobAction::PushAfterAck { .. }));
    assert!(!plan.emit_status);
    let plan = p2p_event_plan(&P2pEvent::PeerDisconnected("p".into()));
    assert!(plan.emit_status && plan.flush_and_sync_peer.is_none());
    let contacts = vec![contact("bea", Some("peer-bea"))];
    assert_eq!(author_key_for_peer(&contacts, "peer-bea").as_deref(), Some("bea-key"));
    assert_eq!(author_key_for_peer(&contacts, "x"), None);
}

#[test]
fn hex_text_splitting_characters_is_detected() {
    assert!(!decode_would_split_char("zz"));
    assert!(!decode_would_split_char("00ff"));
    assert!(decode_would_split_char("a€"));
    assert!(!decode_would_split_char("é"));
}
