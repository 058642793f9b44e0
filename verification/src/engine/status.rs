//! The full connection status the API reports, assembled from the node's
//! facts, the relay list, the outbox and the activity log.
use vstd::prelude::*;

use crate::text::{copy_strings, opt_view, owned, views};
use crate::time::UtcTime;

use super::activity::{labels_built, layers_built, rows_of, P2pActivityEvent, P2pActivitySnapshot};
use super::contacts::{connected_friend_peer_ids, friend_peers, is_connected};
use super::p2p_status::{
    build_labels, build_layers, tone, tone_name, visual_tone, visual_tone_str, P2pLayerLabels,
    P2pLayers,
};
use super::relay_dial::{peer_ids_of, relay_peer_ids};

verus! {

broadcast use crate::text::group_views;

/// What a running node reports about itself.
#[derive(Debug, Clone)]
pub struct NodeFacts {
    pub peer_id: String,
    pub listen_addresses: Vec<String>,
    pub connected_peer_ids: Vec<String>,
}

/// Connection status shown to the user.
#[derive(Debug)]
pub struct P2pStatus {
    pub running: bool,
    pub peer_id: Option<String>,
    pub listen_addresses: Vec<String>,
    pub connected_peer_ids: Vec<String>,
    /// True when a relay multiaddr is configured.
    pub relay_configured: bool,
    pub relay_multiaddrs: Vec<String>,
    /// Configured relays with a live session.
    pub relays_connected_count: usize,
    /// A libp2p session to some relay is up.
    pub relay_connected: bool,
    /// TCP connect probe to the relay host and port (none when not probed).
    pub relay_tcp_reachable: Option<bool>,
    /// Outbox rows still pending or failed delivery.
    pub pending_outbox_count: usize,
    /// True while redialing relay and friend multiaddrs.
    pub dial_in_progress: bool,
    pub last_activity_at: Option<UtcTime>,
    pub recent_activity: Vec<P2pActivityEvent>,
    /// Structured status layers with plain-language labels for the UI.
    pub layers: P2pLayers,
    pub labels: P2pLayerLabels,
    /// `off` | `error` | `warn` | `idle` | `online`: the header dot colour.
    pub tone: String,
}

/// Number of relay peer ids among the connected peers.
pub open spec fn connected_count(relay_ids: Seq<Seq<char>>, connected: Seq<Seq<char>>) -> nat {
    relay_ids.filter(|id: Seq<char>| connected.contains(id)).len()
}

/// The status reported for the given facts. `node` is what a running node
/// reports, `None` when the node is not running.
pub open spec fn status_of(
    st: P2pStatus,
    relays: Seq<Seq<char>>,
    relay_tcp_reachable: Option<bool>,
    pending_outbox_count: usize,
    activity: P2pActivitySnapshot,
    node: Option<NodeFacts>,
) -> bool {
    let relay_ids = peer_ids_of(relays);
    let running = node is Some;
    let connected = match node {
        Some(n) => views(n.connected_peer_ids@),
        None => Seq::<Seq<char>>::empty(),
    };
    let count = connected_count(relay_ids, connected);
    &&& st.running == running
    &&& opt_view(st.peer_id) == match node {
        Some(n) => Some(n.peer_id@),
        None => None,
    }
    &&& views(st.listen_addresses@) == match node {
        Some(n) => views(n.listen_addresses@),
        None => Seq::<Seq<char>>::empty(),
    }
    &&& views(st.connected_peer_ids@) == connected
    &&& st.relay_configured == (relays.len() > 0)
    &&& views(st.relay_multiaddrs@) == relays
    &&& st.relays_connected_count == count
    &&& st.relay_connected == (count > 0)
    &&& st.relay_tcp_reachable == relay_tcp_reachable
    &&& st.pending_outbox_count == pending_outbox_count
    &&& st.dial_in_progress == activity.dial_in_progress
    &&& st.last_activity_at == activity.last_activity_at
    &&& rows_of(st.recent_activity@) == rows_of(activity.events@)
    &&& layers_built(
        st.layers,
        running,
        relays.len() > 0,
        relay_tcp_reachable,
        count > 0,
        friend_peers(relay_ids, connected).len(),
        activity.dial_in_progress,
        pending_outbox_count,
    )
    &&& labels_built(st.labels, st.layers)
    &&& st.tone@ == tone_name(tone(st.layers))
}

fn count_connected(relay_ids: &[String], connected: &[String]) -> (n: usize)
    ensures
        n == connected_count(views(relay_ids@), views(connected@)),
{
    let mut n: usize = 0;
    let mut i: usize = 0;
    while i < relay_ids.len()
        invariant
            i <= relay_ids@.len(),
            n == connected_count(views(relay_ids@).take(i as int), views(connected@)),
            n <= i,
        decreases relay_ids@.len() - i,
    {
        proof {
            assert(views(relay_ids@).take(i + 1) =~= views(relay_ids@).take(i as int).push(
                relay_ids@[i as int]@,
            ));
            views(relay_ids@).take(i as int).lemma_filter_push(
                relay_ids@[i as int]@,
                |id: Seq<char>| views(connected@).contains(id),
            );
        }
        if is_connected(&relay_ids[i], connected) {
            n = n + 1;
        }
        i = i + 1;
    }
    proof {
        assert(views(relay_ids@).take(relay_ids@.len() as int) =~= views(relay_ids@));
    }
    n
}

/// Assemble the status from the relay list, the last relay probe, the
/// outbox count, the activity log and what the node reports.
pub fn p2p_status_snapshot(
    relays: Vec<String>,
    relay_tcp_reachable: Option<bool>,
    pending_outbox_count: usize,
    activity: P2pActivitySnapshot,
    node: Option<NodeFacts>,
) -> (st: P2pStatus)
    ensures
        status_of(st, views(relays@), relay_tcp_reachable, pending_outbox_count, activity, node),
{
    let relay_ids = relay_peer_ids(relays.as_slice());
    let ghost node_view = node;
    let (running, peer_id, listen_addresses, connected) = match node {
        Some(n) => (true, Some(n.peer_id), n.listen_addresses, n.connected_peer_ids),
        None => (false, None, Vec::new(), Vec::new()),
    };
    assert(views(listen_addresses@) =~= match node_view {
        Some(n) => views(n.listen_addresses@),
        None => Seq::<Seq<char>>::empty(),
    });
    let count = count_connected(relay_ids.as_slice(), connected.as_slice());
    let friends = connected_friend_peer_ids(relay_ids.as_slice(), connected.as_slice());
    let relay_configured = relays.len() > 0;
    let layers = build_layers(
        running,
        relay_configured,
        relay_tcp_reachable,
        count > 0,
        friends.len(),
        activity.dial_in_progress,
        pending_outbox_count,
    );
    let labels = build_labels(&layers);
    let tone_text = owned(visual_tone_str(visual_tone(&layers)));
    P2pStatus {
        running,
        peer_id,
        listen_addresses,
        connected_peer_ids: connected,
        relay_configured,
        relay_multiaddrs: relays,
        relays_connected_count: count,
        relay_connected: count > 0,
        relay_tcp_reachable,
        pending_outbox_count,
        dial_in_progress: activity.dial_in_progress,
        last_activity_at: activity.last_activity_at,
        recent_activity: activity.events,
        layers,
        labels,
        tone: tone_text,
    }
}

} // verus!
