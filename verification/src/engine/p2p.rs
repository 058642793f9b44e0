//! Multiaddr inspection: peer ids, relay address validation and announced
//! addresses.
use libp2p::multiaddr::Protocol;
use libp2p::Multiaddr;
use vstd::prelude::*;

use crate::error::CoreError;
use crate::engine::relay_dial::{sort_contact_dial_addrs, sorted_dial_addrs};
use crate::p2p::{circuit_dial_addr, filter_friend_multiaddrs, friend_addrs, relay_circuit_dial_addr};
use crate::text::{
    chars_of, concat2, concat3, contains, contains_seq, owned, split_chars, split_seq, trim,
    trim_seq, views,
};

verus! {

/// One protocol component of a parsed multiaddr, as the logic sees it.
#[derive(Debug, Clone)]
pub enum AddrPart {
    /// An IPv4 address, its four octets in order.
    Ip4([u8; 4]),
    /// An IPv6 address, its sixteen octets in order.
    Ip6([u8; 16]),
    Tcp(u16),
    /// A peer id, in its canonical base58 text.
    P2p(String),
    Other,
}

/// What libp2p's `Multiaddr` parser makes of a text: its protocol
/// components in order, or the text of the parse error.
pub uninterp spec fn multiaddr_parse(text: Seq<char>) -> Result<Seq<AddrPart>, Seq<char>>;

/// Parses `text` with libp2p's `Multiaddr::from_str` and lists its protocols;
/// on failure returns the error's `Display` text. Claimed: the outcome is the
/// named function `multiaddr_parse` of the text.
#[verifier::external_body]
fn parse_multiaddr(text: &str) -> (r: Result<Vec<AddrPart>, String>)
    ensures
        match r {
            Ok(parts) => multiaddr_parse(text@) == Ok::<Seq<AddrPart>, Seq<char>>(parts@),
            Err(e) => multiaddr_parse(text@) == Err::<Seq<AddrPart>, Seq<char>>(e@),
        },
{
    match text.parse::<Multiaddr>() {
        Ok(addr) => Ok(addr.iter().map(|p| match p {
            Protocol::Ip4(a) => AddrPart::Ip4(a.octets()),
            Protocol::Ip6(a) => AddrPart::Ip6(a.octets()),
            Protocol::Tcp(port) => AddrPart::Tcp(port),
            Protocol::P2p(id) => AddrPart::P2p(id.to_string()),
            _ => AddrPart::Other,
        }).collect()),
        Err(e) => Err(e.to_string()),
    }
}

/// The first peer id among the components, if any.
pub open spec fn first_peer(parts: Seq<AddrPart>) -> Option<Seq<char>>
    decreases parts.len(),
{
    if parts.len() == 0 {
        None
    } else {
        match parts[0] {
            AddrPart::P2p(id) => Some(id@),
            _ => first_peer(parts.drop_first()),
        }
    }
}

/// Peer id carried by a multiaddr text (none when it does not parse).
pub open spec fn multiaddr_peer_id(text: Seq<char>) -> Option<Seq<char>> {
    match multiaddr_parse(text) {
        Ok(parts) => first_peer(parts),
        Err(_) => None,
    }
}

fn first_peer_exec(parts: &Vec<AddrPart>) -> (r: Option<String>)
    ensures
        match r {
            Some(id) => first_peer(parts@) == Some(id@),
            None => first_peer(parts@) is None,
        },
{
    let mut i: usize = 0;
    proof {
        assert(parts@.skip(0) =~= parts@);
    }
    while i < parts.len()
        invariant
            i <= parts@.len(),
            first_peer(parts@) == first_peer(parts@.skip(i as int)),
        decreases parts@.len() - i,
    {
        proof {
            assert(parts@.skip(i as int)[0] == parts@[i as int]);
            assert(parts@.skip(i as int).drop_first() =~= parts@.skip(i + 1));
        }
        match &parts[i] {
            AddrPart::P2p(id) => {
                return Some(id.clone());
            },
            _ => {},
        }
        i = i + 1;
    }
    proof {
        assert(parts@.skip(i as int).len() == 0);
    }
    None
}

/// Peer id of the `/p2p/...` component of a multiaddr text.
pub fn peer_id_from_multiaddr_str(multiaddr: &str) -> (r: Option<String>)
    ensures
        match r {
            Some(id) => multiaddr_peer_id(multiaddr@) == Some(id@),
            None => multiaddr_peer_id(multiaddr@) is None,
        },
{
    match parse_multiaddr(multiaddr) {
        Ok(parts) => first_peer_exec(&parts),
        Err(_) => None,
    }
}

/// Whether the components name an IP host.
pub open spec fn has_ip(parts: Seq<AddrPart>) -> bool {
    exists|i: int| 0 <= i < parts.len() && (parts[i] is Ip4 || parts[i] is Ip6)
}

/// Whether the components name a TCP port.
pub open spec fn has_tcp(parts: Seq<AddrPart>) -> bool {
    exists|i: int| 0 <= i < parts.len() && parts[i] is Tcp
}

/// Message when a relay address lacks a host or a port.
pub open spec fn incomplete_relay_msg() -> Seq<char> {
    "relay multiaddr must be a full address like /ip4/HOST/tcp/9000/p2p/PEER_ID — not just the peer id"@
}

/// Why a relay multiaddr is rejected (none when it is accepted): it must
/// parse, after trimming, and name both an IP host and a TCP port.
pub open spec fn relay_addr_problem(raw: Seq<char>) -> Option<Seq<char>> {
    match multiaddr_parse(trim_seq(raw)) {
        Err(e) => Some("invalid relay multiaddr: "@ + e),
        Ok(parts) => if has_ip(parts) && has_tcp(parts) {
            None
        } else {
            Some(incomplete_relay_msg())
        },
    }
}

pub fn validate_relay_multiaddr(raw: &str) -> (r: Result<(), CoreError>)
    ensures
        match r {
            Ok(_) => relay_addr_problem(raw@) is None,
            Err(e) => e matches CoreError::P2p(m) && relay_addr_problem(raw@) == Some(m@),
        },
{
    let trimmed = trim(raw);
    let parts = match parse_multiaddr(trimmed.as_str()) {
        Ok(parts) => parts,
        Err(e) => {
            return Err(CoreError::P2p(concat2("invalid relay multiaddr: ", e.as_str())));
        },
    };
    let mut found_ip = false;
    let mut found_tcp = false;
    let mut i: usize = 0;
    while i < parts.len()
        invariant
            i <= parts@.len(),
            found_ip == exists|k: int| 0 <= k < i && (parts@[k] is Ip4 || parts@[k] is Ip6),
            found_tcp == exists|k: int| 0 <= k < i && parts@[k] is Tcp,
        decreases parts@.len() - i,
    {
        match &parts[i] {
            AddrPart::Ip4(_) | AddrPart::Ip6(_) => {
                found_ip = true;
            },
            AddrPart::Tcp(_) => {
                found_tcp = true;
            },
            _ => {},
        }
        i = i + 1;
    }
    if !found_ip || !found_tcp {
        return Err(
            CoreError::P2p(
                owned(
                    "relay multiaddr must be a full address like /ip4/HOST/tcp/9000/p2p/PEER_ID — not just the peer id",
                ),
            ),
        );
    }
    Ok(())
}

/// The announce list to use: the setting when it is non-empty, else the
/// environment's value.
pub open spec fn announce_source(announce: Option<Seq<char>>, env_announce: Option<Seq<char>>) -> Option<Seq<char>> {
    match announce {
        Some(a) if a.len() > 0 => Some(a),
        _ => env_announce,
    }
}

/// An announced address with `/p2p/<peer_id>` appended when it has no peer id.
pub open spec fn with_peer_suffix(addr: Seq<char>, peer_id: Seq<char>) -> Seq<char> {
    if contains_seq(addr, "/p2p/"@) {
        addr
    } else {
        addr + "/p2p/"@ + peer_id
    }
}

/// Trimmed, non-empty pieces, each completed with the peer id.
pub open spec fn announce_entries(pieces: Seq<Seq<char>>, peer_id: Seq<char>) -> Seq<Seq<char>>
    decreases pieces.len(),
{
    if pieces.len() == 0 {
        Seq::<Seq<char>>::empty()
    } else {
        let rest = announce_entries(pieces.drop_last(), peer_id);
        let t = trim_seq(pieces.last());
        if t.len() > 0 {
            rest.push(with_peer_suffix(t, peer_id))
        } else {
            rest
        }
    }
}

/// Addresses announced in invites, from a comma-separated list.
pub open spec fn announced_addrs(
    peer_id: Seq<char>,
    announce: Option<Seq<char>>,
    env_announce: Option<Seq<char>>,
) -> Seq<Seq<char>> {
    match announce_source(announce, env_announce) {
        None => Seq::<Seq<char>>::empty(),
        Some(raw) => friend_addrs(announce_entries(split_seq(raw, seq![',']), peer_id)),
    }
}

/// A non-empty announce setting decides the announced addresses on its own:
/// the environment's value is then ignored, and used only when the setting
/// is unset or empty. With neither, nothing is announced.
pub proof fn announce_setting_overrides_environment(
    peer_id: Seq<char>,
    setting: Seq<char>,
    env1: Option<Seq<char>>,
    env2: Option<Seq<char>>,
)
    ensures
        setting.len() > 0 ==> announced_addrs(peer_id, Some(setting), env1) == announced_addrs(
            peer_id,
            Some(setting),
            env2,
        ),
        setting.len() > 0 ==> announced_addrs(peer_id, Some(setting), env1) == announced_addrs(
            peer_id,
            None,
            Some(setting),
        ),
        announced_addrs(peer_id, None, env1) == announced_addrs(
            peer_id,
            Some(Seq::<char>::empty()),
            env1,
        ),
        announced_addrs(peer_id, None, None).len() == 0,
{
}

/// Comma-separated multiaddrs from settings (`announce`) or, when that is
/// unset or empty, from the environment (`env_announce`), with
/// `/p2p/<peer_id>` appended when missing; relay circuit paths only.
pub fn announced_p2p_multiaddrs(
    peer_id: &str,
    announce: Option<&str>,
    env_announce: Option<&str>,
) -> (r: Vec<String>)
    ensures
        views(r@) == announced_addrs(
            peer_id@,
            match announce {
                Some(a) => Some(a@),
                None => None,
            },
            match env_announce {
                Some(a) => Some(a@),
                None => None,
            },
        ),
{
    let raw: &str = match announce {
        Some(a) if chars_of(a).len() > 0 => a,
        _ => match env_announce {
            Some(e) => e,
            None => {
                return Vec::new();
            },
        },
    };
    let mut seps: Vec<char> = Vec::new();
    seps.push(',');
    let pieces = split_chars(raw, &seps);
    let slash_p2p = chars_of("/p2p/");
    let mut addrs: Vec<String> = Vec::new();
    let mut i: usize = 0;
    proof {
        assert(seps@ =~= seq![',']);
        assert(views(pieces@).take(0) =~= Seq::<Seq<char>>::empty());
    }
    while i < pieces.len()
        invariant
            i <= pieces@.len(),
            slash_p2p@ == "/p2p/"@,
            views(addrs@) == announce_entries(views(pieces@).take(i as int), peer_id@),
        decreases pieces@.len() - i,
    {
        proof {
            assert(views(pieces@).take(i + 1).drop_last() =~= views(pieces@).take(i as int));
            assert(views(pieces@).take(i + 1).last() == pieces@[i as int]@);
        }
        let t = trim(pieces[i].as_str());
        let tv = chars_of(t.as_str());
        if tv.len() > 0 {
            let full = if contains(&tv, &slash_p2p) {
                t
            } else {
                concat3(t.as_str(), "/p2p/", peer_id)
            };
            addrs.push(full);
            proof {
                assert(views(addrs@) =~= announce_entries(
                    views(pieces@).take(i as int),
                    peer_id@,
                ).push(with_peer_suffix(trim_seq(pieces@[i as int]@), peer_id@)));
            }
        }
        i = i + 1;
    }
    proof {
        assert(views(pieces@).take(pieces@.len() as int) =~= views(pieces@));
    }
    filter_friend_multiaddrs(addrs.as_slice())
}

/// A host address: IPv4 or IPv6 octets.
#[derive(Debug, Clone, Copy)]
pub enum IpAddress {
    V4([u8; 4]),
    V6([u8; 16]),
}

/// The last IP host and the last TCP port among the components.
pub open spec fn tcp_endpoint(parts: Seq<AddrPart>) -> (Option<IpAddress>, Option<u16>)
    decreases parts.len(),
{
    if parts.len() == 0 {
        (None, None)
    } else {
        let (ip, port) = tcp_endpoint(parts.drop_last());
        match parts.last() {
            AddrPart::Ip4(a) => (Some(IpAddress::V4(a)), port),
            AddrPart::Ip6(a) => (Some(IpAddress::V6(a)), port),
            AddrPart::Tcp(p) => (ip, Some(p)),
            _ => (ip, port),
        }
    }
}

/// Host and port a TCP probe of a relay multiaddr connects to: the last
/// IP and the last TCP port it names, when it parses and names both.
pub open spec fn relay_endpoint(multiaddr: Seq<char>) -> Option<(IpAddress, u16)> {
    match multiaddr_parse(multiaddr) {
        Err(_) => None,
        Ok(parts) => match tcp_endpoint(parts) {
            (Some(ip), Some(port)) => Some((ip, port)),
            _ => None,
        },
    }
}

pub fn relay_tcp_endpoint(multiaddr: &str) -> (r: Option<(IpAddress, u16)>)
    ensures
        r == relay_endpoint(multiaddr@),
{
    let parts = match parse_multiaddr(multiaddr) {
        Ok(p) => p,
        Err(_) => return None,
    };
    let mut ip: Option<IpAddress> = None;
    let mut port: Option<u16> = None;
    let mut i: usize = 0;
    while i < parts.len()
        invariant
            i <= parts@.len(),
            (ip, port) == tcp_endpoint(parts@.take(i as int)),
        decreases parts@.len() - i,
    {
        proof {
            assert(parts@.take(i + 1).drop_last() =~= parts@.take(i as int));
        }
        match &parts[i] {
            AddrPart::Ip4(a) => {
                ip = Some(IpAddress::V4(*a));
            },
            AddrPart::Ip6(a) => {
                ip = Some(IpAddress::V6(*a));
            },
            AddrPart::Tcp(p) => {
                port = Some(*p);
            },
            _ => {},
        }
        i = i + 1;
    }
    proof {
        assert(parts@.take(parts@.len() as int) =~= parts@);
    }
    match (ip, port) {
        (Some(a), Some(p)) => Some((a, p)),
        _ => None,
    }
}

/// Relays to redial: those that trim to a non-empty address with a peer id
/// that is not among the connected peers, trimmed.
pub open spec fn relays_needing_dial(relays: Seq<Seq<char>>, connected: Seq<Seq<char>>) -> Seq<
    Seq<char>,
>
    decreases relays.len(),
{
    if relays.len() == 0 {
        Seq::<Seq<char>>::empty()
    } else {
        let rest = relays_needing_dial(relays.drop_last(), connected);
        let t = trim_seq(relays.last());
        if t.len() > 0 && (multiaddr_peer_id(t) matches Some(id) && !connected.contains(id)) {
            rest.push(t)
        } else {
            rest
        }
    }
}

fn peer_in(peer: &String, connected: &[String]) -> (b: bool)
    ensures
        b == views(connected@).contains(peer@),
{
    crate::engine::contacts::is_connected(peer, connected)
}

/// The relays `ensure_relay_connected` redials: configured relays whose
/// session is down, trimmed, in order.
pub fn relays_to_redial(relays: &[String], connected: &[String]) -> (r: Vec<String>)
    ensures
        views(r@) == relays_needing_dial(views(relays@), views(connected@)),
{
    let mut out: Vec<String> = Vec::new();
    let mut i: usize = 0;
    while i < relays.len()
        invariant
            i <= relays@.len(),
            views(out@) == relays_needing_dial(views(relays@).take(i as int), views(connected@)),
        decreases relays@.len() - i,
    {
        proof {
            assert(views(relays@).take(i + 1).drop_last() =~= views(relays@).take(i as int));
        }
        let t = trim(relays[i].as_str());
        if !t.as_str().is_empty() {
            if let Some(id) = peer_id_from_multiaddr_str(t.as_str()) {
                if !peer_in(&id, connected) {
                    let ghost before = views(out@);
                    out.push(t);
                    proof {
                        assert(views(out@) =~= before.push(trim_seq(relays@[i as int]@)));
                    }
                }
            }
        }
        i = i + 1;
    }
    proof {
        assert(views(relays@).take(relays@.len() as int) =~= views(relays@));
    }
    out
}

/// Whether some configured relay with a peer id has a live session.
pub open spec fn some_relay_connected(relays: Seq<Seq<char>>, connected: Seq<Seq<char>>) -> bool {
    exists|k: int|
        0 <= k < relays.len() && (multiaddr_peer_id(#[trigger] relays[k]) matches Some(id)
            && connected.contains(id))
}

/// Whether any configured relay has a live libp2p session.
pub fn any_relay_connected(relays: &[String], connected: &[String]) -> (b: bool)
    ensures
        b == some_relay_connected(views(relays@), views(connected@)),
{
    let mut i: usize = 0;
    while i < relays.len()
        invariant
            i <= relays@.len(),
            forall|k: int|
                0 <= k < i ==> !(multiaddr_peer_id(#[trigger] views(relays@)[k]) matches Some(id)
                    && views(connected@).contains(id)),
        decreases relays@.len() - i,
    {
        if let Some(id) = peer_id_from_multiaddr_str(relays[i].as_str()) {
            if peer_in(&id, connected) {
                assert(views(relays@)[i as int] == relays@[i as int]@);
                return true;
            }
        }
        assert(views(relays@)[i as int] == relays@[i as int]@);
        i = i + 1;
    }
    false
}

/// Circuit addresses through the relays with a live session, in order.
pub open spec fn live_relay_circuits(
    relays: Seq<Seq<char>>,
    connected: Seq<Seq<char>>,
    peer_id: Seq<char>,
) -> Seq<Seq<char>>
    decreases relays.len(),
{
    if relays.len() == 0 {
        Seq::<Seq<char>>::empty()
    } else {
        let rest = live_relay_circuits(relays.drop_last(), connected, peer_id);
        let r = relays.last();
        if multiaddr_peer_id(r) matches Some(id) && connected.contains(id) {
            match circuit_dial_addr(r, peer_id) {
                Some(c) => rest.push(c),
                None => rest,
            }
        } else {
            rest
        }
    }
}

/// Dial targets for `peer_id` through every relay with a live session,
/// circuit paths first, as `sort_contact_dial_addrs` orders them.
pub fn connected_relay_circuit_addresses(
    relays: &[String],
    connected: &[String],
    peer_id: &str,
) -> (r: Vec<String>)
    ensures
        views(r@) == sorted_dial_addrs(live_relay_circuits(views(relays@), views(connected@), peer_id@)),
{
    let mut addrs: Vec<String> = Vec::new();
    let mut i: usize = 0;
    while i < relays.len()
        invariant
            i <= relays@.len(),
            views(addrs@) == live_relay_circuits(views(relays@).take(i as int), views(connected@), peer_id@),
        decreases relays@.len() - i,
    {
        proof {
            assert(views(relays@).take(i + 1).drop_last() =~= views(relays@).take(i as int));
            assert(views(relays@).take(i + 1).last() == relays@[i as int]@);
        }
        if let Some(relay_peer) = peer_id_from_multiaddr_str(relays[i].as_str()) {
            if peer_in(&relay_peer, connected) {
                if let Some(circuit) = relay_circuit_dial_addr(relays[i].as_str(), peer_id) {
                    let ghost before = views(addrs@);
                    addrs.push(circuit);
                    proof {
                        assert(views(addrs@) =~= before.push(circuit@));
                    }
                }
            }
        }
        i = i + 1;
    }
    proof {
        assert(views(relays@).take(relays@.len() as int) =~= views(relays@));
    }
    sort_contact_dial_addrs(addrs.as_slice())
}

/// The addresses an invite carries: the announced ones when there are any,
/// else the routable listen addresses when known and non-empty, else the
/// circuits through live relays.
pub fn choose_invite_addresses(
    announced: Vec<String>,
    routable: Option<Vec<String>>,
    circuits: Vec<String>,
) -> (r: Vec<String>)
    ensures
        announced@.len() > 0 ==> r@ == announced@,
        announced@.len() == 0 ==> match routable {
            Some(v) if v@.len() > 0 => r@ == v@,
            _ => r@ == circuits@,
        },
{
    if announced.len() > 0 {
        return announced;
    }
    match routable {
        Some(v) if v.len() > 0 => v,
        _ => circuits,
    }
}

/// How long a TCP probe result stays fresh: 60 seconds, in milliseconds.
pub const RELAY_PROBE_TTL_MS: u64 = 60000;

/// Relay reachability known without a new TCP probe: up when its session
/// is live, else a cached probe younger than the time to live, else unknown.
pub fn relay_tcp_reachable_precheck(
    relay_session_live: bool,
    cached_probe: Option<(bool, u64)>,
) -> (r: Option<bool>)
    ensures
        relay_session_live ==> r == Some(true),
        !relay_session_live ==> r == match cached_probe {
            Some((reachable, age_ms)) if age_ms < RELAY_PROBE_TTL_MS => Some(reachable),
            _ => None,
        },
{
    if relay_session_live {
        return Some(true);
    }
    match cached_probe {
        Some((reachable, age_ms)) if age_ms < RELAY_PROBE_TTL_MS => Some(reachable),
        _ => None,
    }
}

/// Why a text is not a libp2p peer id (`PeerId::from_str`), if it is not one.
pub uninterp spec fn peer_id_error(text: Seq<char>) -> Option<Seq<char>>;

/// Checks that `text` is a libp2p peer id (`PeerId::from_str`); on failure
/// returns the error's text.
#[verifier::external_body]
pub(crate) fn check_peer_id(text: &str) -> (r: Result<(), String>)
    ensures
        r is Ok <==> peer_id_error(text@) is None,
        r matches Err(e) ==> peer_id_error(text@) == Some(e@),
{
    match text.parse::<libp2p::PeerId>() {
        Ok(_) => Ok(()),
        Err(e) => Err(e.to_string()),
    }
}

} // verus!
