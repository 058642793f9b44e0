//! Settings decisions: which relays and port are in force, what a relay
//! from an invite changes, which web origin invites use, and when a relay
//! change calls for reconnecting.
use vstd::prelude::*;

use crate::error::CoreError;
use crate::text::{opt_view, trim, trim_seq, views};

use super::p2p::relay_addr_problem;
use super::relay_list::{
    merge_relay, merged_relays, relay_lists_equivalent, relay_set, validate_relay_list,
};

verus! {

broadcast use crate::text::group_views;

/// Relays in force: those from the environment when there are any, else the
/// stored ones (none when the settings could not be read).
pub fn effective_relays(env_relays: Vec<String>, stored: Option<Vec<String>>) -> (r: Vec<String>)
    ensures
        env_relays@.len() > 0 ==> r@ == env_relays@,
        env_relays@.len() == 0 ==> match stored {
            Some(v) => r@ == v@,
            None => r@.len() == 0,
        },
{
    if env_relays.len() > 0 {
        return env_relays;
    }
    match stored {
        Some(v) => v,
        None => Vec::new(),
    }
}

/// Listen port in force: the environment's, else the stored one, else the
/// default.
pub fn resolve_listen_port(env_port: Option<u16>, stored: Option<u16>, default_port: u16) -> (r:
    u16)
    ensures
        r == match env_port {
            Some(p) => p,
            None => match stored {
                Some(p) => p,
                None => default_port,
            },
        },
{
    match env_port {
        Some(p) => p,
        None => match stored {
            Some(p) => p,
            None => default_port,
        },
    }
}

/// What a relay from an accepted invite changes: nothing when the
/// environment fixes the relays or the relay's peer is already listed;
/// otherwise the merged list, once every entry of it is a full address.
pub fn relay_merge_from_invite(env_relays_set: bool, current: &[String], relay: &str) -> (r: Result<
    Option<Vec<String>>,
    CoreError,
>)
    ensures
        env_relays_set ==> r matches Ok(None),
        !env_relays_set && merged_relays(views(current@), relay@).len() == current@.len() ==> r
            matches Ok(None),
        !env_relays_set && merged_relays(views(current@), relay@).len() != current@.len() ==> (
        match r {
            Ok(Some(m)) => views(m@) == merged_relays(views(current@), relay@) && forall|i: int|
                0 <= i < m@.len() ==> relay_addr_problem(#[trigger] m@[i]@) is None,
            Ok(None) => false,
            Err(e) => e is P2p,
        }),
{
    if env_relays_set {
        return Ok(None);
    }
    let merged = merge_relay(current, relay);
    if merged.len() == current.len() {
        return Ok(None);
    }
    match validate_relay_list(merged.as_slice()) {
        Ok(()) => Ok(Some(merged)),
        Err(e) => Err(e),
    }
}

/// The first of the candidates that is not blank, trimmed.
pub open spec fn first_origin(
    env_origin: Option<Seq<char>>,
    settings_origin: Option<Seq<char>>,
    request_origin: Option<Seq<char>>,
) -> Option<Seq<char>> {
    if env_origin matches Some(o) && trim_seq(o).len() > 0 {
        Some(trim_seq(env_origin.unwrap()))
    } else if settings_origin matches Some(o) && trim_seq(o).len() > 0 {
        Some(trim_seq(settings_origin.unwrap()))
    } else if request_origin matches Some(o) && trim_seq(o).len() > 0 {
        Some(trim_seq(request_origin.unwrap()))
    } else {
        None
    }
}

fn non_blank(o: Option<&str>) -> (r: Option<String>)
    ensures
        match o {
            Some(s) => if trim_seq(s@).len() > 0 {
                opt_view(r) == Some(trim_seq(s@))
            } else {
                r is None
            },
            None => r is None,
        },
{
    match o {
        Some(s) => {
            let t = trim(s);
            if t.as_str().is_empty() {
                None
            } else {
                Some(t)
            }
        },
        None => None,
    }
}

/// Web origin for invite links: the environment's, else the stored
/// setting, else the request's; blank values are skipped.
pub fn resolve_invite_web_origin(
    env_origin: Option<&str>,
    settings_origin: Option<&str>,
    request_origin: Option<&str>,
) -> (r: Option<String>)
    ensures
        opt_view(r) == first_origin(
            match env_origin {
                Some(o) => Some(o@),
                None => None,
            },
            match settings_origin {
                Some(o) => Some(o@),
                None => None,
            },
            match request_origin {
                Some(o) => Some(o@),
                None => None,
            },
        ),
{
    if let Some(o) = non_blank(env_origin) {
        return Some(o);
    }
    if let Some(o) = non_blank(settings_origin) {
        return Some(o);
    }
    non_blank(request_origin)
}

/// After saving a new relay list: reconnect when the list changed or no
/// relay session is up, and only while the node runs.
pub fn relay_reconnect_needed(
    prior: &[String],
    new: &[String],
    any_relay_connected: bool,
    node_running: bool,
) -> (r: bool)
    ensures
        r == (node_running && (relay_set(views(prior@)) != relay_set(views(new@))
            || !any_relay_connected)),
{
    let relay_changed = !relay_lists_equivalent(prior, new);
    (relay_changed || !any_relay_connected) && node_running
}

} // verus!
