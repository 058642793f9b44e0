//! Relay-circuit address helpers shared by friend dialing and invites.
use vstd::prelude::*;

use crate::content::ContentType;
use crate::text::{chars_of, concat3, contains, contains_seq, trim, trim_seq, views};

verus! {

/// Marker of a relay circuit path inside a multiaddr.
pub open spec fn circuit_marker() -> Seq<char> {
    "/p2p-circuit/"@
}

/// Whether a multiaddr dials through a relay circuit.
pub open spec fn is_circuit_addr(addr: Seq<char>) -> bool {
    contains_seq(addr, circuit_marker())
}

/// Dial address reaching `peer_id` through the relay at `relay`:
/// `<relay>/p2p-circuit/p2p/<peer_id>`; none when either side is blank.
pub open spec fn circuit_dial_addr(relay: Seq<char>, peer_id: Seq<char>) -> Option<Seq<char>> {
    let r = trim_seq(relay);
    if r.len() == 0 || peer_id.len() == 0 {
        None
    } else {
        Some(r + "/p2p-circuit/p2p/"@ + peer_id)
    }
}

pub fn relay_circuit_dial_addr(relay: &str, peer_id: &str) -> (r: Option<String>)
    ensures
        match r {
            Some(a) => circuit_dial_addr(relay@, peer_id@) == Some(a@),
            None => circuit_dial_addr(relay@, peer_id@) is None,
        },
{
    let relay = trim(relay);
    let pv = chars_of(peer_id);
    let rv = chars_of(relay.as_str());
    if rv.len() == 0 || pv.len() == 0 {
        return None;
    }
    Some(concat3(relay.as_str(), "/p2p-circuit/p2p/", peer_id))
}

/// Whether a multiaddr dials through a relay circuit.
pub fn is_circuit(addr: &str) -> (b: bool)
    ensures
        b == is_circuit_addr(addr@),
{
    let a = chars_of(addr);
    let m = chars_of("/p2p-circuit/");
    contains(&a, &m)
}

/// Friend addresses worth dialing: relay circuit paths only, in order.
pub open spec fn friend_addrs(addrs: Seq<Seq<char>>) -> Seq<Seq<char>> {
    addrs.filter(|a: Seq<char>| is_circuit_addr(a))
}

pub fn filter_friend_multiaddrs(addrs: &[String]) -> (r: Vec<String>)
    ensures
        views(r@) == friend_addrs(views(addrs@)),
{
    let mut out: Vec<String> = Vec::new();
    let mut i: usize = 0;
    while i < addrs.len()
        invariant
            i <= addrs@.len(),
            views(out@) == friend_addrs(views(addrs@.take(i as int))),
        decreases addrs@.len() - i,
    {
        let a = &addrs[i];
        proof {
            assert(views(addrs@.take(i + 1)) =~= views(addrs@.take(i as int)).push(a@));
            views(addrs@.take(i as int)).lemma_filter_push(
                a@,
                |x: Seq<char>| is_circuit_addr(x),
            );
        }
        if is_circuit(a.as_str()) {
            out.push(a.clone());
            proof {
                assert(views(out@) =~= friend_addrs(views(addrs@.take(i as int))).push(a@));
            }
        }
        i = i + 1;
    }
    proof {
        assert(addrs@.take(addrs@.len() as int) =~= addrs@);
    }
    out
}

/// A friend request as it arrives from the network.
#[derive(Debug, Clone)]
pub struct FriendRequest {
    pub display_name: String,
    pub signing_pubkey: String,
}

/// Something that happened on the P2P network. Peer ids are carried in their
/// base58 text form.
#[derive(Debug, Clone)]
pub enum P2pEvent {
    PeerConnected(String),
    PeerDisconnected(String),
    MessageReceived {
        sender_id: String,
        body: String,
        content_id: String,
        content_type: ContentType,
        contact_id: Option<String>,
    },
    DeliveryAcked { content_id: String, peer_id: String },
    BlobNeeded { hash: String, peer_id: String },
    FriendRequestReceived(FriendRequest),
    CommentReceived { post_id: String, content_id: String, author_id: String, body: String },
}

} // verus!
