//! Decisions of the desktop and mobile shell around the local API: waiting
//! for it to become healthy, and which page to open first.
use vstd::prelude::*;

use crate::text::{concat3, owned, trim, trim_seq};

verus! {

/// How long the shell waits for the API to answer its health check.
pub const HEALTH_TIMEOUT_SECS: u64 = 45;

/// Pause between two health checks.
pub const HEALTH_POLL_MS: u64 = 200;

/// What the shell does after one look at the starting API.
#[derive(Debug, Clone)]
pub enum HealthWait {
    /// The API answers: open the UI.
    Ready,
    /// Check again after `HEALTH_POLL_MS`.
    Retry,
    /// Give up with this message.
    Failed(String),
}

/// One step of the wait for a healthy API, `elapsed_ms` after it began:
/// past the deadline it gives up; a process that already exited fails the
/// wait (with its exit status text); a healthy answer ends it; anything else
/// waits on.
pub fn health_wait_step(elapsed_ms: u64, exited: Option<&str>, healthy: bool) -> (r: HealthWait)
    ensures
        elapsed_ms >= HEALTH_TIMEOUT_SECS * 1000 ==> (r matches HealthWait::Failed(m) && m@
            == "inertia-api did not become healthy at http://127.0.0.1:4783/api/health within 45s"@),
        elapsed_ms < HEALTH_TIMEOUT_SECS * 1000 ==> match exited {
            Some(status) => (r matches HealthWait::Failed(m) && m@
                == "inertia-api exited before becoming healthy ("@ + status@ + ")"@),
            None => if healthy {
                r is Ready
            } else {
                r is Retry
            },
        },
{
    if elapsed_ms >= HEALTH_TIMEOUT_SECS * 1000 {
        return HealthWait::Failed(
            owned("inertia-api did not become healthy at http://127.0.0.1:4783/api/health within 45s"),
        );
    }
    match exited {
        Some(status) => HealthWait::Failed(
            concat3("inertia-api exited before becoming healthy (", status, ")"),
        ),
        None => if healthy {
            HealthWait::Ready
        } else {
            HealthWait::Retry
        },
    }
}

/// The shell starts its own API only when nothing answers on its port yet.
pub fn check_api_port_free(already_healthy: bool) -> (r: Result<(), String>)
    ensures
        !already_healthy <==> r is Ok,
        already_healthy ==> (r matches Err(m) && m@
            == "port 4783 already in use (another inertia-api is running). Stop it first."@),
{
    if already_healthy {
        return Err(owned("port 4783 already in use (another inertia-api is running). Stop it first."));
    }
    Ok(())
}

/// The invite link a launcher left for the shell, trimmed; none when blank.
pub fn pending_invite_from_text(text: &str) -> (r: Option<String>)
    ensures
        trim_seq(text@).len() == 0 ==> r is None,
        trim_seq(text@).len() > 0 ==> (r matches Some(s) && s@ == trim_seq(text@)),
{
    let t = trim(text);
    if t.as_str().is_empty() {
        None
    } else {
        Some(t)
    }
}

/// The first page the shell opens: a pending invite link, else the root of
/// the local UI.
pub fn start_url(pending: Option<String>) -> (r: String)
    ensures
        match pending {
            Some(p) => r@ == p@,
            None => r@ == "http://127.0.0.1:4783/"@,
        },
{
    match pending {
        Some(p) => p,
        None => owned("http://127.0.0.1:4783/"),
    }
}

} // verus!
