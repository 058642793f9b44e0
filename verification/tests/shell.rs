use inertia_core::engine::contacts::pending_contact;
use inertia_core::shell::{
    check_api_port_free, health_wait_step, pending_invite_from_text, start_url, HealthWait,
};
use inertia_core::storage::ConnectionState;

#[test]
fn health_wait_gives_up_after_deadline() {
    match health_wait_step(45_000, None, true) {
        HealthWait::Failed(m) => assert_eq!(
            m,
            "inertia-api did not become healthy at http://127.0.0.1:4783/api/health within 45s"
        ),
        other => panic!("unexpected {other:?}"),
    }
}

#[test]
fn health_wait_steps_before_deadline() {
    assert!(matches!(health_wait_step(0, None, true), HealthWait::Ready));
    assert!(matches!(health_wait_step(44_999, None, false), HealthWait::Retry));
    match health_wait_step(10, Some("exit status: 1"), true) {
        HealthWait::Failed(m) => {
            assert_eq!(m, "inertia-api exited before becoming healthy (exit status: 1)")
        }
        other => panic!("unexpected {other:?}"),
    }
}

#[test]
fn api_port_must_be_free() {
    assert!(check_api_port_free(false).is_ok());
    assert_eq!(
        check_api_port_free(true).unwrap_err(),
        "port 4783 already in use (another inertia-api is running). Stop it first."
    );
}

#[test]
fn pending_invite_is_trimmed_and_blank_is_none() {
    assert_eq!(pending_invite_from_text("   \n"), None);
    assert_eq!(
        pending_invite_from_text("  inertia://invite#abc \n").as_deref(),
        Some("inertia://invite#abc")
    );
}

#[test]
fn start_url_defaults_to_ui_root() {
    assert_eq!(start_url(None), "http://127.0.0.1:4783/");
    assert_eq!(start_url(Some("inertia://invite#x".into())), "inertia://invite#x");
}

#[test]
fn pending_contact_starts_offline() {
    let c = pending_contact("c1", "Bob", "sk", "ek");
    assert_eq!(c.id, "c1");
    assert_eq!(c.display_name, "Bob");
    assert_eq!(c.signing_pubkey, "sk");
    assert_eq!(c.encryption_pubkey, "ek");
    assert!(c.peer_id.is_none() && c.phone_hash.is_none() && c.last_seen.is_none());
    assert_eq!(c.connection_state, ConnectionState::Offline);
    assert!(c.multiaddrs.is_empty());
}
