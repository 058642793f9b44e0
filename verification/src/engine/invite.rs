//! Invite flow decisions: whether this device can issue an invite, whether
//! the invite relay is ready, and which origins make shareable links.
use vstd::prelude::*;

use crate::error::{error_text, CoreError};
use crate::text::{
    chars_of, contains, contains_seq, has_prefix, owned, starts_with, str_eq, trim, trim_seq, views,
};

use crate::hex::ascii_lower;
use vstd::utf8::is_ascii_chars;

use super::p2p::{relay_addr_problem, validate_relay_multiaddr};
use super::relay_dial::{
    invite_dial_limit, inviter_dial_addrs, inviter_dial_targets, INVITE_ACCEPT_DIAL_ATTEMPTS,
};
use super::relay_list::{relay_connected, select_invite_relay};

verus! {

/// Whether this device can issue a friend invite right now, and why not.
#[derive(Debug, Clone)]
pub struct InviteReadiness {
    pub ready: bool,
    pub relay_configured: bool,
    pub relay_connected: bool,
    pub reachable: bool,
    pub message: String,
}

/// Readiness from the connection facts: a relay is configured, P2P runs,
/// the relay session is up, the priority relay holds an inbound
/// reservation, and a shareable circuit address exists — checked in this
/// order, the first missing one explains the answer.
pub open spec fn readiness(
    relay_configured: bool,
    running: bool,
    relay_tcp_reachable: Option<bool>,
    relay_connected: bool,
    reserved: bool,
    shareable: bool,
) -> (bool, bool, bool, bool, Seq<char>) {
    if !relay_configured {
        (false, false, false, false, "Add a relay in Settings before inviting."@)
    } else if !running {
        (false, true, false, false, "P2P is starting — try again in a moment."@)
    } else if relay_tcp_reachable == Some(false) && !relay_connected {
        (false, true, false, false, "Relay VPS port unreachable — check the address in Settings."@)
    } else if !relay_connected {
        (false, true, false, false, "Connecting to relay — wait for Relay OK in the header."@)
    } else if !reserved {
        (
            false,
            true,
            true,
            false,
            "Waiting for relay inbound slot — tap Generate and keep the app open for a few seconds."@,
        )
    } else if !shareable {
        (
            false,
            true,
            true,
            false,
            "Relay connected but not reachable yet — tap Generate and we will prepare your circuit slot."@,
        )
    } else {
        (true, true, true, true, "Ready to invite — stay in the app while your friend accepts."@)
    }
}

/// An invite is ready exactly when a relay is configured, the node runs,
/// the relay session is up, the priority relay holds an inbound reservation
/// and a shareable circuit address exists; a ready answer reports every
/// layer as fine, and a device counts as reachable only when it is ready.
pub proof fn invite_ready_needs_everything(
    relay_configured: bool,
    running: bool,
    relay_tcp_reachable: Option<bool>,
    relay_connected: bool,
    reserved: bool,
    shareable: bool,
)
    ensures
        ({
            let r = readiness(
                relay_configured,
                running,
                relay_tcp_reachable,
                relay_connected,
                reserved,
                shareable,
            );
            &&& r.0 <==> (relay_configured && running && relay_connected && reserved && shareable)
            &&& r.0 ==> r.1 && r.2 && r.3
            &&& r.3 ==> r.0
            &&& r.1 <==> relay_configured
            &&& r.2 ==> relay_configured && running && relay_connected
            &&& relay_configured && running && relay_connected ==> r.2
            &&& r.0 <==> r.4 == "Ready to invite — stay in the app while your friend accepts."@
        }),
{
    reveal_strlit("Ready to invite — stay in the app while your friend accepts.");
    reveal_strlit("Add a relay in Settings before inviting.");
    reveal_strlit("P2P is starting — try again in a moment.");
    reveal_strlit("Relay VPS port unreachable — check the address in Settings.");
    reveal_strlit("Connecting to relay — wait for Relay OK in the header.");
    reveal_strlit(
        "Waiting for relay inbound slot — tap Generate and keep the app open for a few seconds.",
    );
    reveal_strlit(
        "Relay connected but not reachable yet — tap Generate and we will prepare your circuit slot.",
    );
    let ready = "Ready to invite — stay in the app while your friend accepts."@;
    assert(ready[2] == 'a');
    assert("Add a relay in Settings before inviting."@[0] != ready[0]);
    assert("P2P is starting — try again in a moment."@[0] != ready[0]);
    assert("Relay VPS port unreachable — check the address in Settings."@[2] != ready[2]);
    assert("Connecting to relay — wait for Relay OK in the header."@[0] != ready[0]);
    assert(
        "Waiting for relay inbound slot — tap Generate and keep the app open for a few seconds."@[0]
            != ready[0]
    );
    assert(
        "Relay connected but not reachable yet — tap Generate and we will prepare your circuit slot."@[2]
            != ready[2]
    );
}

fn answer(
    ready: bool,
    relay_configured: bool,
    relay_connected: bool,
    reachable: bool,
    message: &str,
) -> (r: InviteReadiness)
    ensures
        r.ready == ready,
        r.relay_configured == relay_configured,
        r.relay_connected == relay_connected,
        r.reachable == reachable,
        r.message@ == message@,
{
    InviteReadiness { ready, relay_configured, relay_connected, reachable, message: owned(message) }
}

/// Whether an invite can be issued, from the facts the engine gathered.
pub fn invite_readiness(
    relay_configured: bool,
    running: bool,
    relay_tcp_reachable: Option<bool>,
    relay_connected: bool,
    reserved: bool,
    shareable: bool,
) -> (r: InviteReadiness)
    ensures
        (r.ready, r.relay_configured, r.relay_connected, r.reachable, r.message@) == readiness(
            relay_configured,
            running,
            relay_tcp_reachable,
            relay_connected,
            reserved,
            shareable,
        ),
{
    if !relay_configured {
        return answer(false, false, false, false, "Add a relay in Settings before inviting.");
    }
    if !running {
        return answer(false, true, false, false, "P2P is starting — try again in a moment.");
    }
    if relay_tcp_reachable == Some(false) && !relay_connected {
        return answer(
            false,
            true,
            false,
            false,
            "Relay VPS port unreachable — check the address in Settings.",
        );
    }
    if !relay_connected {
        return answer(
            false,
            true,
            false,
            false,
            "Connecting to relay — wait for Relay OK in the header.",
        );
    }
    if !reserved {
        return answer(
            false,
            true,
            true,
            false,
            "Waiting for relay inbound slot — tap Generate and keep the app open for a few seconds.",
        );
    }
    if !shareable {
        return answer(
            false,
            true,
            true,
            false,
            "Relay connected but not reachable yet — tap Generate and we will prepare your circuit slot.",
        );
    }
    answer(true, true, true, true, "Ready to invite — stay in the app while your friend accepts.")
}

/// Whether the invite relay must be (re)bootstrapped before an invite
/// create or accept: the priority relay has no session, or a reservation
/// is required and missing.
pub fn invite_relay_needs_bootstrap(
    priority_connected: bool,
    priority_reserved: bool,
    require_reservation: bool,
) -> (r: bool)
    ensures
        r == (!priority_connected || (require_reservation && !priority_reserved)),
{
    !priority_connected || (require_reservation && !priority_reserved)
}

/// Outcome of the invite relay check after bootstrapping: none when ready,
/// else the message of the invite error.
pub open spec fn invite_relay_problem(
    relays_configured: bool,
    running: bool,
    priority_connected: bool,
    any_relay_connected: bool,
    require_reservation: bool,
    priority_reserved: bool,
) -> Option<Seq<char>> {
    if !relays_configured {
        Some("relay multiaddr is not configured — add one in Settings"@)
    } else if !running {
        Some("P2P is not running — restart the API and try again"@)
    } else if !priority_connected && !any_relay_connected {
        Some("could not connect to the relay network — check Settings and try again"@)
    } else if require_reservation && !priority_reserved {
        Some("relay circuit slot not ready — stay on this screen with Relay OK, then try again"@)
    } else {
        None
    }
}

/// Whether the relay network is ready for an invite, from the facts seen
/// after bootstrapping.
pub fn check_invite_relay_ready(
    relays_configured: bool,
    running: bool,
    priority_connected: bool,
    any_relay_connected: bool,
    require_reservation: bool,
    priority_reserved: bool,
) -> (r: Result<(), CoreError>)
    ensures
        match r {
            Ok(_) => invite_relay_problem(
                relays_configured,
                running,
                priority_connected,
                any_relay_connected,
                require_reservation,
                priority_reserved,
            ) is None,
            Err(e) => e matches CoreError::Invite(m) && invite_relay_problem(
                relays_configured,
                running,
                priority_connected,
                any_relay_connected,
                require_reservation,
                priority_reserved,
            ) == Some(m@),
        },
{
    if !relays_configured {
        return Err(CoreError::Invite(owned("relay multiaddr is not configured — add one in Settings")));
    }
    if !running {
        return Err(CoreError::Invite(owned("P2P is not running — restart the API and try again")));
    }
    if !priority_connected && !any_relay_connected {
        return Err(
            CoreError::Invite(
                owned("could not connect to the relay network — check Settings and try again"),
            ),
        );
    }
    if require_reservation && !priority_reserved {
        return Err(
            CoreError::Invite(
                owned(
                    "relay circuit slot not ready — stay on this screen with Relay OK, then try again",
                ),
            ),
        );
    }
    Ok(())
}

/// Message shown when the inviter cannot be reached while accepting.
pub open spec fn inviter_unreachable_msg() -> Seq<char> {
    "could not reach the inviter — they must stay online with Relay OK while you accept"@
}

/// A dial failure while redeeming an invite becomes a plain invite error;
/// other errors pass through.
pub fn map_invite_dial_error(err: CoreError) -> (r: CoreError)
    ensures
        contains_seq(error_text(err), "failed to dial"@) ==> (r matches CoreError::Invite(m)
            && m@ == inviter_unreachable_msg()),
        !contains_seq(error_text(err), "failed to dial"@) ==> r == err,
{
    let msg = err.message();
    let mv = chars_of(msg.as_str());
    let needle = chars_of("failed to dial");
    if contains(&mv, &needle) {
        CoreError::Invite(
            owned(
                "could not reach the inviter — they must stay online with Relay OK while you accept",
            ),
        )
    } else {
        err
    }
}

/// Message when waiting for a peer times out, by the role of that peer.
pub open spec fn wait_timeout_msg(role: Seq<char>) -> Seq<char> {
    if role == "relay"@ {
        "could not connect to the relay network — wait until the header shows Relay OK, then try again"@
    } else {
        inviter_unreachable_msg()
    }
}

pub fn peer_wait_timeout_error(role: &str) -> (r: CoreError)
    ensures
        r matches CoreError::Invite(m) && m@ == wait_timeout_msg(role@),
{
    if str_eq(role, "relay") {
        CoreError::Invite(
            owned(
                "could not connect to the relay network — wait until the header shows Relay OK, then try again",
            ),
        )
    } else {
        CoreError::Invite(
            owned(
                "could not reach the inviter — they must stay online with Relay OK while you accept",
            ),
        )
    }
}

/// Lower-case form of a text (std `str::to_lowercase`, full Unicode case
/// mapping).
pub uninterp spec fn unicode_lowercase(s: Seq<char>) -> Seq<char>;

/// Lower-cases with std `str::to_lowercase`. Claimed: the result is the named
/// function `unicode_lowercase` of the input, and ASCII text comes back with
/// each letter `A`-`Z` replaced by its lower case, everything else kept.
#[verifier::external_body]
fn to_lowercase(s: &str) -> (r: String)
    ensures
        r@ == unicode_lowercase(s@),
        is_ascii_chars(s@) ==> r@ == s@.map_values(|c: char| ascii_lower(c)),
{
    s.to_lowercase()
}

/// Origins that only work on the development machine: links made with them
/// cannot be opened on another device. The on-device API origin
/// (`127.0.0.1:4783`) is shareable.
pub open spec fn local_dev_origin(origin: Seq<char>) -> bool {
    dev_origin_lowered(unicode_lowercase(crate::text::trim_seq(origin)))
}

/// The test of `local_dev_origin` on the trimmed, lower-cased origin.
pub open spec fn dev_origin_lowered(lower: Seq<char>) -> bool {
    if contains_seq(lower, "localhost"@) {
        true
    } else if lower == "http://127.0.0.1:4783"@ || has_prefix(lower, "http://127.0.0.1:4783/"@)
        || lower == "https://127.0.0.1:4783"@ || has_prefix(lower, "https://127.0.0.1:4783/"@) {
        false
    } else {
        has_prefix(lower, "http://127.0.0.1:"@) || has_prefix(lower, "https://127.0.0.1:"@)
    }
}

/// Origins that only work on the dev machine — use `inertia://` links for
/// cross-device sharing.
pub fn is_local_dev_origin(origin: &str) -> (r: bool)
    ensures
        r == local_dev_origin(origin@),
        is_ascii_chars(trim_seq(origin@)) ==> r == dev_origin_lowered(
            trim_seq(origin@).map_values(|c: char| ascii_lower(c)),
        ),
{
    let t = trim(origin);
    let lower = to_lowercase(t.as_str());
    let l = chars_of(lower.as_str());
    if contains(&l, &chars_of("localhost")) {
        return true;
    }
    if str_eq(lower.as_str(), "http://127.0.0.1:4783") || starts_with(
        &l,
        &chars_of("http://127.0.0.1:4783/"),
    ) || str_eq(lower.as_str(), "https://127.0.0.1:4783") || starts_with(
        &l,
        &chars_of("https://127.0.0.1:4783/"),
    ) {
        return false;
    }
    starts_with(&l, &chars_of("http://127.0.0.1:")) || starts_with(
        &l,
        &chars_of("https://127.0.0.1:"),
    )
}


/// The first relay of the list with a live session.
pub open spec fn first_connected(relays: Seq<Seq<char>>, connected: Seq<Seq<char>>) -> Option<
    Seq<char>,
>
    decreases relays.len(),
{
    if relays.len() == 0 {
        None
    } else if relay_connected(relays[0], connected) {
        Some(relays[0])
    } else {
        first_connected(relays.drop_first(), connected)
    }
}

/// The relay a new invite names: the first relay with a live session, else
/// the first relay configured.
pub open spec fn invite_relay_pick(relays: Seq<Seq<char>>, connected: Seq<Seq<char>>) -> Option<
    Seq<char>,
> {
    match first_connected(relays, connected) {
        Some(r) => Some(r),
        None => if relays.len() > 0 {
            Some(relays[0])
        } else {
            None
        },
    }
}

proof fn lemma_first_connected_at(relays: Seq<Seq<char>>, connected: Seq<Seq<char>>, k: int)
    requires
        0 <= k < relays.len(),
        relay_connected(relays[k], connected),
        forall|j: int| 0 <= j < k ==> !relay_connected(#[trigger] relays[j], connected),
    ensures
        first_connected(relays, connected) == Some(relays[k]),
    decreases k,
{
    if k > 0 {
        let rest = relays.drop_first();
        assert forall|j: int| 0 <= j < k - 1 implies !relay_connected(
            #[trigger] rest[j],
            connected,
        ) by {
            assert(rest[j] == relays[j + 1]);
        }
        assert(rest[k - 1] == relays[k]);
        lemma_first_connected_at(rest, connected, k - 1);
        assert(!relay_connected(relays[0], connected));
    }
}

proof fn lemma_first_connected_none(relays: Seq<Seq<char>>, connected: Seq<Seq<char>>)
    requires
        forall|j: int| 0 <= j < relays.len() ==> !relay_connected(#[trigger] relays[j], connected),
    ensures
        first_connected(relays, connected) is None,
    decreases relays.len(),
{
    if relays.len() > 0 {
        let rest = relays.drop_first();
        assert forall|j: int| 0 <= j < rest.len() implies !relay_connected(
            #[trigger] rest[j],
            connected,
        ) by {
            assert(rest[j] == relays[j + 1]);
        }
        assert(!relay_connected(relays[0], connected));
        lemma_first_connected_none(rest, connected);
    }
}

/// The relay a new invite names, checked: an error when no relay is
/// configured, or when the chosen one is no usable relay address.
pub fn invite_relay_for_create(relays: &[String], connected_peer_ids: &[String]) -> (r: Result<
    String,
    CoreError,
>)
    ensures
        match invite_relay_pick(views(relays@), views(connected_peer_ids@)) {
            None => (r matches Err(CoreError::Invite(m)) && m@
                == "relay multiaddr is not configured"@),
            Some(p) => match relay_addr_problem(p) {
                None => (r matches Ok(s) && s@ == p),
                Some(msg) => (r matches Err(CoreError::P2p(m)) && m@ == msg),
            },
        },
{
    let chosen = match select_invite_relay(relays, connected_peer_ids) {
        Some(c) => {
            proof {
                let k = choose|k: int|
                    0 <= k < relays@.len() && relays@[k]@ == c@ && relay_connected(
                        relays@[k]@,
                        views(connected_peer_ids@),
                    ) && forall|j: int|
                        0 <= j < k ==> !relay_connected(
                            #[trigger] relays@[j]@,
                            views(connected_peer_ids@),
                        );
                assert forall|j: int| 0 <= j < k implies !relay_connected(
                    #[trigger] views(relays@)[j],
                    views(connected_peer_ids@),
                ) by {
                    assert(views(relays@)[j] == relays@[j]@);
                }
                lemma_first_connected_at(views(relays@), views(connected_peer_ids@), k);
            }
            c
        },
        None => {
            proof {
                assert forall|j: int| 0 <= j < views(relays@).len() implies !relay_connected(
                    #[trigger] views(relays@)[j],
                    views(connected_peer_ids@),
                ) by {
                    assert(views(relays@)[j] == relays@[j]@);
                }
                lemma_first_connected_none(views(relays@), views(connected_peer_ids@));
            }
            if relays.len() == 0 {
                return Err(CoreError::Invite(owned("relay multiaddr is not configured")));
            }
            assert(views(relays@)[0] == relays@[0]@);
            relays[0].clone()
        },
    };
    match validate_relay_multiaddr(chosen.as_str()) {
        Ok(_) => Ok(chosen),
        Err(e) => Err(e),
    }
}

/// A new invite needs at least one relay circuit address to share.
pub fn require_invite_circuits(multiaddrs: &[String]) -> (r: Result<(), CoreError>)
    ensures
        multiaddrs@.len() > 0 <==> r is Ok,
        multiaddrs@.len() == 0 ==> (r matches Err(CoreError::Invite(m)) && m@
            == "no relay circuit address — check relay connection and try again"@),
{
    if multiaddrs.len() == 0 {
        return Err(
            CoreError::Invite(owned("no relay circuit address — check relay connection and try again")),
        );
    }
    Ok(())
}

/// The origin an invite link is built on: the configured web origin unless
/// it only works on the development machine.
pub fn invite_share_origin(settings_origin: Option<&str>) -> (r: Option<String>)
    ensures
        match settings_origin {
            Some(o) => if local_dev_origin(o@) {
                r is None
            } else {
                (r matches Some(s) && s@ == o@)
            },
            None => r is None,
        },
{
    match settings_origin {
        Some(o) => if is_local_dev_origin(o) {
            None
        } else {
            Some(owned(o))
        },
        None => None,
    }
}

/// An invite can be accepted once per device.
pub fn check_invite_not_redeemed(redeemed_here: bool) -> (r: Result<(), CoreError>)
    ensures
        !redeemed_here <==> r is Ok,
        redeemed_here ==> (r matches Err(CoreError::Invite(m)) && m@
            == "you already accepted this invite on this device"@),
{
    if redeemed_here {
        return Err(CoreError::Invite(owned("you already accepted this invite on this device")));
    }
    Ok(())
}

/// The inviter's peer id; an invite without one cannot be accepted.
pub fn inviter_peer_id(peer_id: Option<&str>) -> (r: Result<String, CoreError>)
    ensures
        match peer_id {
            Some(p) => (r matches Ok(s) && s@ == p@),
            None => (r matches Err(CoreError::Invite(m)) && m@
                == "inviter is not reachable — they must be online with P2P running"@),
        },
{
    match peer_id {
        Some(p) => Ok(owned(p)),
        None => Err(
            CoreError::Invite(owned("inviter is not reachable — they must be online with P2P running")),
        ),
    }
}

/// The addresses to dial while accepting an invite from `peer_id`, and how
/// many of them to dial at first; an error when there is none.
pub fn accept_dial_plan(
    peer_id: &str,
    invite_relay: &str,
    multiaddrs: &[String],
    relays: &[String],
) -> (r: Result<(Vec<String>, usize), CoreError>)
    ensures
        ({
            let targets = inviter_dial_targets(
                Some(peer_id@),
                invite_relay@,
                views(multiaddrs@),
                views(relays@),
            );
            if targets.len() == 0 {
                r matches Err(CoreError::Invite(m)) && m@
                    == "inviter has no relay circuit addresses — ask for a fresh invite"@
            } else {
                r matches Ok((addrs, limit)) && views(addrs@) == targets && limit == (if targets.len()
                    < INVITE_ACCEPT_DIAL_ATTEMPTS {
                    targets.len()
                } else {
                    INVITE_ACCEPT_DIAL_ATTEMPTS as nat
                })
            }
        }),
{
    let addrs = inviter_dial_addrs(Some(peer_id), invite_relay, multiaddrs, relays);
    if addrs.len() == 0 {
        return Err(
            CoreError::Invite(owned("inviter has no relay circuit addresses — ask for a fresh invite")),
        );
    }
    let limit = invite_dial_limit(addrs.len());
    Ok((addrs, limit))
}

/// How far accepting an invite has come; the engine moves to the next
/// stage once the action of the current one succeeded.
#[derive(Debug, Clone, Copy, PartialEq, Eq, Structural)]
pub enum AcceptStage {
    /// The invite was read and checked.
    Start,
    /// The invite's relay is in the settings.
    RelayApplied,
    /// The relay network is ready.
    RelayReady,
    /// The inviter has a live session with this device.
    InviterConnected,
    /// The inviter took the redemption.
    Redeemed,
}

/// What the engine does next while accepting an invite.
#[derive(Debug, Clone)]
pub enum AcceptAction {
    /// Stop with this error: nothing more is stored, dialled or sent.
    Fail(CoreError),
    /// Merge the invite's relay into the settings.
    ApplyRelay,
    /// Bootstrap the relay network and check that it is ready.
    EnsureRelayReady,
    /// Dial the first `limit` of these addresses and wait for the inviter.
    DialInviter { addrs: Vec<String>, limit: usize },
    /// Send the redemption to the inviter.
    Redeem,
    /// Store the inviter as a contact and mark the invite redeemed here.
    StoreContact,
}

/// The stage that follows a successful action; none after a failure or
/// once the contact is stored.
pub open spec fn next_accept_stage(stage: AcceptStage, action: AcceptAction) -> Option<
    AcceptStage,
> {
    match action {
        AcceptAction::Fail(_) => None,
        AcceptAction::StoreContact => None,
        _ => match stage {
            AcceptStage::Start => Some(AcceptStage::RelayApplied),
            AcceptStage::RelayApplied => Some(AcceptStage::RelayReady),
            AcceptStage::RelayReady => Some(AcceptStage::InviterConnected),
            AcceptStage::InviterConnected => Some(AcceptStage::Redeemed),
            AcceptStage::Redeemed => None,
        },
    }
}

/// The next step of accepting an invite: an invite already accepted on
/// this device is refused before anything else; then the relay is applied,
/// the inviter's peer id is required, the relay network made ready, the
/// inviter dialled, the redemption sent and the contact stored.
pub fn accept_invite_step(
    stage: AcceptStage,
    redeemed_here: bool,
    peer_id: Option<&str>,
    invite_relay: &str,
    multiaddrs: &[String],
    relays: &[String],
) -> (r: AcceptAction)
    ensures
        stage == AcceptStage::Start ==> if redeemed_here {
            r matches AcceptAction::Fail(CoreError::Invite(m)) && m@
                == "you already accepted this invite on this device"@
        } else {
            r is ApplyRelay
        },
        stage == AcceptStage::RelayApplied ==> match peer_id {
            Some(_) => r is EnsureRelayReady,
            None => (r matches AcceptAction::Fail(CoreError::Invite(m)) && m@
                == "inviter is not reachable — they must be online with P2P running"@),
        },
        stage == AcceptStage::RelayReady ==> match peer_id {
            None => (r matches AcceptAction::Fail(CoreError::Invite(m)) && m@
                == "inviter is not reachable — they must be online with P2P running"@),
            Some(p) => {
                let targets = inviter_dial_targets(
                    Some(p@),
                    invite_relay@,
                    views(multiaddrs@),
                    views(relays@),
                );
                if targets.len() == 0 {
                    r matches AcceptAction::Fail(CoreError::Invite(m)) && m@
                        == "inviter has no relay circuit addresses — ask for a fresh invite"@
                } else {
                    r matches AcceptAction::DialInviter { addrs, limit } && views(addrs@)
                        == targets && limit == (if targets.len() < INVITE_ACCEPT_DIAL_ATTEMPTS {
                        targets.len()
                    } else {
                        INVITE_ACCEPT_DIAL_ATTEMPTS as nat
                    })
                }
            },
        },
        stage == AcceptStage::InviterConnected ==> r is Redeem,
        stage == AcceptStage::Redeemed ==> r is StoreContact,
{
    match stage {
        AcceptStage::Start => match check_invite_not_redeemed(redeemed_here) {
            Ok(()) => AcceptAction::ApplyRelay,
            Err(e) => AcceptAction::Fail(e),
        },
        AcceptStage::RelayApplied => match inviter_peer_id(peer_id) {
            Ok(_) => AcceptAction::EnsureRelayReady,
            Err(e) => AcceptAction::Fail(e),
        },
        AcceptStage::RelayReady => match inviter_peer_id(peer_id) {
            Err(e) => AcceptAction::Fail(e),
            Ok(p) => match accept_dial_plan(p.as_str(), invite_relay, multiaddrs, relays) {
                Ok((addrs, limit)) => AcceptAction::DialInviter { addrs, limit },
                Err(e) => AcceptAction::Fail(e),
            },
        },
        AcceptStage::InviterConnected => AcceptAction::Redeem,
        AcceptStage::Redeemed => AcceptAction::StoreContact,
    }
}

/// An invite already accepted on this device is refused at once: the first
/// step fails with the already-accepted error and ends the acceptance, so no
/// relay is applied, nobody is dialled and no contact is stored.
pub proof fn redeemed_invite_changes_nothing(r: AcceptAction)
    requires
        r matches AcceptAction::Fail(CoreError::Invite(m)) && m@
            == "you already accepted this invite on this device"@,
    ensures
        next_accept_stage(AcceptStage::Start, r) is None,
        !(r is ApplyRelay || r is EnsureRelayReady || r is DialInviter || r is Redeem
            || r is StoreContact),
{
}


} // verus!
