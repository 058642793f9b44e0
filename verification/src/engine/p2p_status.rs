//! User-facing connection layers: each layer is independent and carries a
//! plain-language label; the headline and tone summarise them.
use vstd::prelude::*;

use crate::text::{concat2, concat3, decimal, decimal_string, owned, str_eq};

verus! {

/// Connection layers shown to the user.
#[derive(Debug, Clone)]
pub struct P2pLayers {
    /// `off` | `running`
    pub node: String,
    /// `not_configured` | `unreachable` | `connecting` | `connected`
    pub relay: String,
    /// `offline` | `connecting` | `online`
    pub friends: String,
    /// `idle` | `sending`
    pub sync: String,
    pub friends_online_count: usize,
    pub pending_outbox_count: usize,
}

/// Plain-language labels for each layer, plus a one-line headline.
#[derive(Debug, Clone)]
pub struct P2pLayerLabels {
    pub headline: String,
    pub node: String,
    pub relay: String,
    pub friends: String,
    pub sync: String,
}

/// Colour of the status dot.
#[derive(Debug, Clone, Copy, PartialEq, Eq, Structural)]
pub enum VisualTone {
    Off,
    Error,
    Warn,
    Idle,
    Online,
}

/// State of the node layer.
pub open spec fn node_state(running: bool) -> Seq<char> {
    if running {
        "running"@
    } else {
        "off"@
    }
}

/// State of the relay layer: one of `not_configured`, `unreachable`,
/// `connecting` and `connected`, whether or not the node runs.
pub open spec fn relay_state(
    running: bool,
    relay_configured: bool,
    relay_tcp_reachable: Option<bool>,
    relay_connected: bool,
) -> Seq<char> {
    if !relay_configured {
        "not_configured"@
    } else if relay_tcp_reachable == Some(false) {
        "unreachable"@
    } else if relay_connected {
        "connected"@
    } else {
        "connecting"@
    }
}

/// State of the friends layer.
pub open spec fn friends_state(
    running: bool,
    friends_online_count: usize,
    dial_in_progress: bool,
) -> Seq<char> {
    if !running {
        "offline"@
    } else if dial_in_progress {
        "connecting"@
    } else if friends_online_count > 0 {
        "online"@
    } else {
        "offline"@
    }
}

/// State of the sync (outbox) layer.
pub open spec fn sync_state(pending_outbox_count: usize) -> Seq<char> {
    if pending_outbox_count > 0 {
        "sending"@
    } else {
        "idle"@
    }
}

/// Derive the layers from raw connection facts.
pub fn build_layers(
    running: bool,
    relay_configured: bool,
    relay_tcp_reachable: Option<bool>,
    relay_connected: bool,
    friends_online_count: usize,
    dial_in_progress: bool,
    pending_outbox_count: usize,
) -> (r: P2pLayers)
    ensures
        r.node@ == node_state(running),
        r.relay@ == relay_state(running, relay_configured, relay_tcp_reachable, relay_connected),
        r.relay@ == "not_configured"@ || r.relay@ == "unreachable"@ || r.relay@ == "connecting"@
            || r.relay@ == "connected"@,
        r.friends@ == friends_state(running, friends_online_count, dial_in_progress),
        r.sync@ == sync_state(pending_outbox_count),
        r.friends_online_count == friends_online_count,
        r.pending_outbox_count == pending_outbox_count,
{
    let node = if running {
        owned("running")
    } else {
        owned("off")
    };
    let relay = if !relay_configured {
        owned("not_configured")
    } else if relay_tcp_reachable == Some(false) {
        owned("unreachable")
    } else if relay_connected {
        owned("connected")
    } else {
        // TCP probe passed (or still probing) but no libp2p session to the relay yet.
        owned("connecting")
    };
    let friends = if !running {
        owned("offline")
    } else if dial_in_progress {
        owned("connecting")
    } else if friends_online_count > 0 {
        owned("online")
    } else {
        owned("offline")
    };
    let sync = if pending_outbox_count > 0 {
        owned("sending")
    } else {
        owned("idle")
    };
    P2pLayers { node, relay, friends, sync, friends_online_count, pending_outbox_count }
}

/// Label of the node layer.
pub open spec fn node_label(node: Seq<char>) -> Seq<char> {
    if node == "running"@ {
        "P2P node running on this device"@
    } else {
        "P2P not running — restart the API or check Settings"@
    }
}

/// Label of the relay layer.
pub open spec fn relay_label(relay: Seq<char>) -> Seq<char> {
    if relay == "not_configured"@ {
        "Relay: not configured (add one in Settings)"@
    } else if relay == "standby"@ {
        "Relay: configured but P2P is off"@
    } else if relay == "unreachable"@ {
        "Relay: VPS port unreachable — check firewall or address"@
    } else if relay == "connecting"@ {
        "Relay: VPS reachable — establishing P2P connection to relay"@
    } else if relay == "connected"@ {
        "Relay: connected (NAT traversal available)"@
    } else {
        "Relay: unknown state"@
    }
}

/// Label of the friends layer.
pub open spec fn friends_label(friends: Seq<char>, node: Seq<char>, n: usize) -> Seq<char> {
    if friends == "connecting"@ {
        "Friends: connecting to known peers…"@
    } else if friends == "online"@ {
        if n == 1 {
            "Friends: 1 online now"@
        } else {
            "Friends: "@ + decimal(n as nat) + " online now"@
        }
    } else if node == "off"@ {
        "Friends: offline (P2P is off)"@
    } else {
        "Friends: none online right now"@
    }
}

/// Label of the sync layer.
pub open spec fn sync_label(sync: Seq<char>, n: usize) -> Seq<char> {
    if sync == "sending"@ {
        if n == 1 {
            "Outbox: 1 item waiting to deliver"@
        } else {
            "Outbox: "@ + decimal(n as nat) + " items waiting to deliver"@
        }
    } else {
        "Outbox: nothing pending"@
    }
}

/// One-line summary of all layers, most important first.
pub open spec fn headline(l: P2pLayers) -> Seq<char> {
    if l.node@ == "off"@ {
        "P2P off"@
    } else if l.relay@ == "unreachable"@ {
        "Relay unreachable"@
    } else if l.friends@ == "online"@ {
        if l.friends_online_count == 1 {
            "1 friend online"@
        } else {
            decimal(l.friends_online_count as nat) + " friends online"@
        }
    } else if l.friends@ == "connecting"@ {
        "Connecting to friends…"@
    } else if l.sync@ == "sending"@ {
        if l.pending_outbox_count == 1 {
            "Sending 1 item…"@
        } else {
            "Sending "@ + decimal(l.pending_outbox_count as nat) + " items…"@
        }
    } else if l.relay@ == "connecting"@ {
        "Connecting to relay…"@
    } else if l.relay@ == "connected"@ {
        "Ready — no friends online"@
    } else if l.relay@ == "not_configured"@ {
        "Running — no relay set"@
    } else {
        "P2P idle"@
    }
}

/// Plain-language labels for the given layers.
pub fn build_labels(layers: &P2pLayers) -> (r: P2pLayerLabels)
    ensures
        r.headline@ == headline(*layers),
        r.node@ == node_label(layers.node@),
        r.relay@ == relay_label(layers.relay@),
        r.friends@ == friends_label(
            layers.friends@,
            layers.node@,
            layers.friends_online_count,
        ),
        r.sync@ == sync_label(layers.sync@, layers.pending_outbox_count),
{
    let node = if str_eq(layers.node.as_str(), "running") {
        owned("P2P node running on this device")
    } else {
        owned("P2P not running — restart the API or check Settings")
    };
    let rl = layers.relay.as_str();
    let relay = if str_eq(rl, "not_configured") {
        owned("Relay: not configured (add one in Settings)")
    } else if str_eq(rl, "standby") {
        owned("Relay: configured but P2P is off")
    } else if str_eq(rl, "unreachable") {
        owned("Relay: VPS port unreachable — check firewall or address")
    } else if str_eq(rl, "connecting") {
        owned("Relay: VPS reachable — establishing P2P connection to relay")
    } else if str_eq(rl, "connected") {
        owned("Relay: connected (NAT traversal available)")
    } else {
        owned("Relay: unknown state")
    };
    let fr = layers.friends.as_str();
    let friends = if str_eq(fr, "connecting") {
        owned("Friends: connecting to known peers…")
    } else if str_eq(fr, "online") {
        let n = layers.friends_online_count;
        if n == 1 {
            owned("Friends: 1 online now")
        } else {
            let d = decimal_string(n);
            concat3("Friends: ", d.as_str(), " online now")
        }
    } else if str_eq(layers.node.as_str(), "off") {
        owned("Friends: offline (P2P is off)")
    } else {
        owned("Friends: none online right now")
    };
    let sync = if str_eq(layers.sync.as_str(), "sending") {
        let n = layers.pending_outbox_count;
        if n == 1 {
            owned("Outbox: 1 item waiting to deliver")
        } else {
            let d = decimal_string(n);
            concat3("Outbox: ", d.as_str(), " items waiting to deliver")
        }
    } else {
        owned("Outbox: nothing pending")
    };
    let headline = derive_headline(layers);
    P2pLayerLabels { headline, node, relay, friends, sync }
}

/// Dot colour for the given layers.
pub open spec fn tone(l: P2pLayers) -> VisualTone {
    if l.node@ == "off"@ {
        VisualTone::Off
    } else if l.relay@ == "unreachable"@ {
        VisualTone::Error
    } else if l.friends@ == "online"@ {
        VisualTone::Online
    } else if l.friends@ == "connecting"@ || l.relay@ == "connecting"@ || l.sync@ == "sending"@ {
        VisualTone::Warn
    } else if l.relay@ == "connected"@ || l.relay@ == "not_configured"@ {
        VisualTone::Idle
    } else {
        VisualTone::Warn
    }
}

pub fn visual_tone(layers: &P2pLayers) -> (t: VisualTone)
    ensures
        t == tone(*layers),
{
    if str_eq(layers.node.as_str(), "off") {
        return VisualTone::Off;
    }
    if str_eq(layers.relay.as_str(), "unreachable") {
        return VisualTone::Error;
    }
    if str_eq(layers.friends.as_str(), "online") {
        return VisualTone::Online;
    }
    if str_eq(layers.friends.as_str(), "connecting") || str_eq(layers.relay.as_str(), "connecting")
        || str_eq(layers.sync.as_str(), "sending") {
        return VisualTone::Warn;
    }
    if str_eq(layers.relay.as_str(), "connected") || str_eq(layers.relay.as_str(), "not_configured") {
        return VisualTone::Idle;
    }
    VisualTone::Warn
}

fn derive_headline(layers: &P2pLayers) -> (h: String)
    ensures
        h@ == headline(*layers),
{
    if str_eq(layers.node.as_str(), "off") {
        return owned("P2P off");
    }
    if str_eq(layers.relay.as_str(), "unreachable") {
        return owned("Relay unreachable");
    }
    if str_eq(layers.friends.as_str(), "online") {
        let n = layers.friends_online_count;
        return if n == 1 {
            owned("1 friend online")
        } else {
            let d = decimal_string(n);
            concat2(d.as_str(), " friends online")
        };
    }
    if str_eq(layers.friends.as_str(), "connecting") {
        return owned("Connecting to friends…");
    }
    if str_eq(layers.sync.as_str(), "sending") {
        let n = layers.pending_outbox_count;
        return if n == 1 {
            owned("Sending 1 item…")
        } else {
            let d = decimal_string(n);
            concat3("Sending ", d.as_str(), " items…")
        };
    }
    if str_eq(layers.relay.as_str(), "connecting") {
        return owned("Connecting to relay…");
    }
    if str_eq(layers.relay.as_str(), "connected") {
        return owned("Ready — no friends online");
    }
    if str_eq(layers.relay.as_str(), "not_configured") {
        return owned("Running — no relay set");
    }
    owned("P2P idle")
}

/// Name of a tone, as sent to the UI.
pub open spec fn tone_name(t: VisualTone) -> Seq<char> {
    match t {
        VisualTone::Off => "off"@,
        VisualTone::Error => "error"@,
        VisualTone::Warn => "warn"@,
        VisualTone::Idle => "idle"@,
        VisualTone::Online => "online"@,
    }
}

pub fn visual_tone_str(tone: VisualTone) -> (s: &'static str)
    ensures
        s@ == tone_name(tone),
{
    match tone {
        VisualTone::Off => "off",
        VisualTone::Error => "error",
        VisualTone::Warn => "warn",
        VisualTone::Idle => "idle",
        VisualTone::Online => "online",
    }
}

/// The headline names the most pressing layer. A stopped node reads
/// "P2P off"; an unreachable relay comes next; then friends online or being
/// dialled; then items being sent. Once none of these holds, the headline
/// tells the relay's state: connecting, connected (ready), or not
/// configured. "Connecting to relay…" shows only while the relay layer is
/// connecting.
pub proof fn headline_follows_layer_priority(l: P2pLayers)
    ensures
        l.node@ == "off"@ ==> headline(l) == "P2P off"@,
        l.node@ == "running"@ && l.relay@ == "unreachable"@ ==> headline(l)
            == "Relay unreachable"@,
        l.node@ == "running"@ && l.relay@ != "unreachable"@ && l.friends@ == "online"@
            && l.friends_online_count == 1 ==> headline(l) == "1 friend online"@,
        l.node@ == "running"@ && l.relay@ != "unreachable"@ && l.friends@ == "connecting"@
            ==> headline(l) == "Connecting to friends…"@,
        ({
            let quiet = l.node@ == "running"@ && l.relay@ != "unreachable"@ && l.friends@
                != "online"@ && l.friends@ != "connecting"@ && l.sync@ != "sending"@;
            &&& quiet && l.relay@ == "connected"@ ==> headline(l) == "Ready — no friends online"@
            &&& quiet && l.relay@ == "connecting"@ ==> headline(l) == "Connecting to relay…"@
            &&& quiet && l.relay@ == "not_configured"@ ==> headline(l)
                == "Running — no relay set"@
        }),
        headline(l) == "Connecting to relay…"@ ==> l.relay@ == "connecting"@,
        headline(l) == "Ready — no friends online"@ ==> l.relay@ == "connected"@,
{
    reveal_strlit("off");
    reveal_strlit("running");
    reveal_strlit("unreachable");
    reveal_strlit("online");
    reveal_strlit("connecting");
    reveal_strlit("sending");
    reveal_strlit("connected");
    reveal_strlit("not_configured");
    reveal_strlit("P2P off");
    reveal_strlit("Relay unreachable");
    reveal_strlit("1 friend online");
    reveal_strlit(" friends online");
    reveal_strlit("Connecting to friends…");
    reveal_strlit("Sending 1 item…");
    reveal_strlit("Sending ");
    reveal_strlit(" items…");
    reveal_strlit("Connecting to relay…");
    reveal_strlit("Ready — no friends online");
    reveal_strlit("Running — no relay set");
    reveal_strlit("P2P idle");
    let h = headline(l);
    let n = l.friends_online_count;
    lemma_decimal_starts_with_digit(n as nat);
    assert("running"@ != "off"@) by { assert("running"@.len() != "off"@.len()); }
    assert("Relay unreachable"@[2] == 'l');
    assert("Connecting to relay…"@[0] == 'C');
    assert("Ready — no friends online"@[2] == 'a');
    assert("P2P off"@[0] == 'P');
    assert("1 friend online"@[0] == '1');
    assert("Connecting to friends…"@[14] == 'f');
    assert("Connecting to relay…"@[14] == 'r');
    assert("Sending 1 item…"@[0] == 'S');
    assert("Running — no relay set"@[0] == 'R' && "Running — no relay set"@[1] == 'u');
    assert("Ready — no friends online"@[1] == 'e');
    assert("P2P idle"@[0] == 'P');
    assert("connected"@ != "connecting"@) by { assert("connected"@.len() != "connecting"@.len()); }
    assert("not_configured"@ != "connecting"@) by { assert("not_configured"@[0] != "connecting"@[0]); }
    assert("not_configured"@ != "connected"@) by { assert("not_configured"@[0] != "connected"@[0]); }
    assert("unreachable"@ != "connected"@) by { assert("unreachable"@[0] != "connected"@[0]); }
    assert("unreachable"@ != "connecting"@) by { assert("unreachable"@[0] != "connecting"@[0]); }
    assert("unreachable"@ != "not_configured"@) by { assert("unreachable"@[0] != "not_configured"@[0]); }
    assert("connecting"@ != "online"@) by { assert("connecting"@.len() != "online"@.len()); }
    if h == "Connecting to relay…"@ || h == "Ready — no friends online"@ {
        assert(l.node@ != "off"@) by {
            if l.node@ == "off"@ {
                assert(h[0] == 'P');
            }
        }
        assert(l.relay@ != "unreachable"@) by {
            if l.relay@ == "unreachable"@ {
                assert(h[2] == 'l');
            }
        }
        assert(l.friends@ != "online"@) by {
            if l.friends@ == "online"@ {
                if n == 1 {
                    assert(h[0] == '1');
                } else {
                    assert(h[0] == decimal(n as nat)[0]);
                }
            }
        }
        assert(l.friends@ != "connecting"@) by {
            if l.friends@ == "connecting"@ {
                assert(h[14] == 'f');
            }
        }
        assert(l.sync@ != "sending"@) by {
            if l.sync@ == "sending"@ {
                assert(h[0] == 'S');
            }
        }
    }
}

proof fn lemma_decimal_starts_with_digit(n: nat)
    ensures
        decimal(n).len() >= 1,
        '0' <= decimal(n)[0] <= '9',
    decreases n,
{
    if n >= 10 {
        lemma_decimal_starts_with_digit(n / 10);
        assert(decimal(n)[0] == decimal(n / 10)[0]);
    }
}

} // verus!
