//! Planning friend dials: relay circuit targets, their order, and the relay
//! list used to bootstrap invites.
use vstd::prelude::*;

use crate::p2p::{
    circuit_dial_addr, filter_friend_multiaddrs, friend_addrs, is_circuit, is_circuit_addr,
    relay_circuit_dial_addr,
};
use crate::storage::Contact;
use crate::text::{chars_equal, chars_of, opt_view, trim, trim_chars, trim_seq, views};

use super::p2p::{multiaddr_peer_id, peer_id_from_multiaddr_str};

verus! {

broadcast use crate::text::group_views;

/// Cap outbound dials per friend during a redial pass.
pub const MAX_DIALS_PER_CONTACT: usize = 3;

/// Max circuit dials per redial round when accepting an invite.
pub const INVITE_ACCEPT_DIAL_ATTEMPTS: usize = 8;

/// Sort rank of a dial address: relay circuits before anything else.
pub open spec fn dial_rank(addr: Seq<char>) -> u8 {
    if is_circuit_addr(addr) {
        0
    } else {
        1
    }
}

pub fn dial_addr_rank(addr: &str) -> (r: u8)
    ensures
        r == dial_rank(addr@),
{
    if is_circuit(addr) {
        0
    } else {
        1
    }
}

/// Addresses that are not relay circuits, in order.
pub open spec fn direct_addrs(addrs: Seq<Seq<char>>) -> Seq<Seq<char>> {
    addrs.filter(|a: Seq<char>| !is_circuit_addr(a))
}

/// `s` with every run of equal neighbours reduced to its first element
/// (std `Vec::dedup`).
pub open spec fn dedup_adjacent(s: Seq<Seq<char>>) -> Seq<Seq<char>>
    decreases s.len(),
{
    if s.len() == 0 {
        s
    } else {
        let r = dedup_adjacent(s.drop_last());
        if s.len() >= 2 && s[s.len() - 2] == s.last() {
            r
        } else {
            r.push(s.last())
        }
    }
}

/// Dial order: a stable sort by rank (relay circuits first, each group in
/// the order it came in), then adjacent duplicates dropped.
pub open spec fn sorted_dial_addrs(addrs: Seq<Seq<char>>) -> Seq<Seq<char>> {
    dedup_adjacent(friend_addrs(addrs) + direct_addrs(addrs))
}

fn direct_only(addrs: &[String]) -> (r: Vec<String>)
    ensures
        views(r@) == direct_addrs(views(addrs@)),
{
    let mut out: Vec<String> = Vec::new();
    let mut i: usize = 0;
    while i < addrs.len()
        invariant
            i <= addrs@.len(),
            views(out@) == direct_addrs(views(addrs@.take(i as int))),
        decreases addrs@.len() - i,
    {
        let a = &addrs[i];
        proof {
            assert(views(addrs@.take(i + 1)) =~= views(addrs@.take(i as int)).push(a@));
            views(addrs@.take(i as int)).lemma_filter_push(
                a@,
                |x: Seq<char>| !is_circuit_addr(x),
            );
        }
        if !is_circuit(a.as_str()) {
            out.push(a.clone());
            proof {
                assert(views(out@) =~= direct_addrs(views(addrs@.take(i as int))).push(a@));
            }
        }
        i = i + 1;
    }
    proof {
        assert(addrs@.take(addrs@.len() as int) =~= addrs@);
    }
    out
}

fn dedup_strings(s: &Vec<String>) -> (r: Vec<String>)
    ensures
        views(r@) == dedup_adjacent(views(s@)),
{
    let mut out: Vec<String> = Vec::new();
    let mut i: usize = 0;
    proof {
        assert(views(s@).take(0) =~= Seq::<Seq<char>>::empty());
    }
    while i < s.len()
        invariant
            i <= s@.len(),
            views(out@) == dedup_adjacent(views(s@).take(i as int)),
        decreases s@.len() - i,
    {
        let ghost pre = views(s@).take(i as int);
        let ghost cur = views(s@).take(i + 1);
        proof {
            assert(cur.drop_last() =~= pre);
            assert(cur.last() == s@[i as int]@);
            if i >= 1 {
                assert(cur[cur.len() - 2] == s@[i - 1]@);
            }
        }
        let repeat = if i >= 1 {
            let a = chars_of(s[i - 1].as_str());
            let b = chars_of(s[i].as_str());
            chars_equal(&a, &b)
        } else {
            false
        };
        if !repeat {
            out.push(s[i].clone());
            proof {
                assert(views(out@) =~= dedup_adjacent(pre).push(s@[i as int]@));
            }
        }
        i = i + 1;
    }
    proof {
        assert(views(s@).take(s@.len() as int) =~= views(s@));
    }
    out
}

/// Sort contact dial addresses: relay circuits first, then other paths;
/// adjacent duplicates removed.
pub fn sort_contact_dial_addrs(addrs: &[String]) -> (r: Vec<String>)
    ensures
        views(r@) == sorted_dial_addrs(views(addrs@)),
{
    let mut sorted = filter_friend_multiaddrs(addrs);
    let mut rest = direct_only(addrs);
    let ghost first = views(sorted@);
    sorted.append(&mut rest);
    proof {
        assert(views(sorted@) =~= first + direct_addrs(views(addrs@)));
    }
    dedup_strings(&sorted)
}

/// Circuit dial addresses reaching `peer_id` through each relay, in order.
pub open spec fn circuits_via(relays: Seq<Seq<char>>, peer_id: Seq<char>) -> Seq<Seq<char>>
    decreases relays.len(),
{
    if relays.len() == 0 {
        Seq::<Seq<char>>::empty()
    } else {
        let r = circuits_via(relays.drop_last(), peer_id);
        match circuit_dial_addr(relays.last(), peer_id) {
            Some(c) => r.push(c),
            None => r,
        }
    }
}

fn push_circuits(out: &mut Vec<String>, relays: &[String], peer_id: &str)
    ensures
        views(final(out)@) == views(old(out)@) + circuits_via(views(relays@), peer_id@),
{
    let ghost start = views(out@);
    let mut i: usize = 0;
    proof {
        assert(views(relays@).take(0) =~= Seq::<Seq<char>>::empty());
        assert(views(out@) =~= start + circuits_via(views(relays@).take(0), peer_id@));
    }
    while i < relays.len()
        invariant
            i <= relays@.len(),
            views(out@) == start + circuits_via(views(relays@).take(i as int), peer_id@),
        decreases relays@.len() - i,
    {
        proof {
            assert(views(relays@).take(i + 1).drop_last() =~= views(relays@).take(i as int));
            assert(views(relays@).take(i + 1).last() == relays@[i as int]@);
        }
        match relay_circuit_dial_addr(relays[i].as_str(), peer_id) {
            Some(c) => {
                let ghost before = out@;
                out.push(c);
                proof {
                    assert(views(out@) =~= views(before).push(c@));
                    assert(views(out@) =~= start + circuits_via(
                        views(relays@).take(i as int),
                        peer_id@,
                    ).push(c@));
                }
            },
            None => {},
        }
        i = i + 1;
    }
    proof {
        assert(views(relays@).take(relays@.len() as int) =~= views(relays@));
    }
}

/// Dial targets for a friend: circuits through each configured relay (when
/// the friend's peer id is known) plus the friend's own circuit addresses,
/// in dial order; nothing when no relay is configured.
pub open spec fn contact_dial_targets(
    peer_id: Option<Seq<char>>,
    multiaddrs: Seq<Seq<char>>,
    relays: Seq<Seq<char>>,
) -> Seq<Seq<char>> {
    if relays.len() == 0 {
        Seq::<Seq<char>>::empty()
    } else {
        let circuits = match peer_id {
            Some(p) => circuits_via(relays, p),
            None => Seq::<Seq<char>>::empty(),
        };
        sorted_dial_addrs(circuits + friend_addrs(multiaddrs))
    }
}

/// Build friend dial targets: relay circuits only (requires configured
/// relays and a peer id).
pub fn contact_dial_addrs(contact: &Contact, relays: &[String]) -> (r: Vec<String>)
    ensures
        views(r@) == contact_dial_targets(
            opt_view(contact.peer_id),
            views(contact.multiaddrs@),
            views(relays@),
        ),
{
    if relays.len() == 0 {
        return Vec::new();
    }
    let mut addrs: Vec<String> = Vec::new();
    match &contact.peer_id {
        Some(peer_id) => {
            push_circuits(&mut addrs, relays, peer_id.as_str());
        },
        None => {},
    }
    let ghost first = views(addrs@);
    let mut own = filter_friend_multiaddrs(contact.multiaddrs.as_slice());
    addrs.append(&mut own);
    proof {
        assert(views(addrs@) =~= first + friend_addrs(views(contact.multiaddrs@)));
        if contact.peer_id is Some {
            assert(first =~= circuits_via(views(relays@), contact.peer_id->0@));
        } else {
            assert(first =~= Seq::<Seq<char>>::empty());
        }
    }
    sort_contact_dial_addrs(addrs.as_slice())
}

/// Dial targets for the inviter while accepting an invite: with its peer
/// id, circuits through the invite's relay and through each configured
/// relay, plus its own circuit addresses, in dial order; without a peer id,
/// only its own circuit addresses.
pub open spec fn inviter_dial_targets(
    peer_id: Option<Seq<char>>,
    invite_relay: Seq<char>,
    multiaddrs: Seq<Seq<char>>,
    relays: Seq<Seq<char>>,
) -> Seq<Seq<char>> {
    match peer_id {
        None => friend_addrs(multiaddrs),
        Some(p) => sorted_dial_addrs(
            circuits_via(seq![invite_relay], p) + circuits_via(relays, p) + friend_addrs(
                multiaddrs,
            ),
        ),
    }
}

pub fn inviter_dial_addrs(
    peer_id: Option<&str>,
    invite_relay: &str,
    multiaddrs: &[String],
    relays: &[String],
) -> (r: Vec<String>)
    ensures
        views(r@) == inviter_dial_targets(
            match peer_id {
                Some(p) => Some(p@),
                None => None,
            },
            invite_relay@,
            views(multiaddrs@),
            views(relays@),
        ),
{
    let pid = match peer_id {
        None => {
            return filter_friend_multiaddrs(multiaddrs);
        },
        Some(p) => p,
    };
    let mut addrs: Vec<String> = Vec::new();
    let mut single: Vec<String> = Vec::new();
    single.push(crate::text::owned(invite_relay));
    push_circuits(&mut addrs, single.as_slice(), pid);
    let ghost a1 = views(addrs@);
    push_circuits(&mut addrs, relays, pid);
    let ghost a2 = views(addrs@);
    let mut own = filter_friend_multiaddrs(multiaddrs);
    addrs.append(&mut own);
    proof {
        assert(views(single@) =~= seq![invite_relay@]);
        assert(views(addrs@) =~= circuits_via(seq![invite_relay@], pid@) + circuits_via(
            views(relays@),
            pid@,
        ) + friend_addrs(views(multiaddrs@)));
    }
    sort_contact_dial_addrs(addrs.as_slice())
}

/// Relays in bootstrap order: the priority relay first, then the others;
/// trimmed, without blanks or repeats.
pub open spec fn ordered_relays(priority: Seq<char>, relays: Seq<Seq<char>>) -> Seq<Seq<char>>
    decreases relays.len(),
{
    if relays.len() == 0 {
        let p = trim_seq(priority);
        if p.len() > 0 {
            seq![p]
        } else {
            Seq::<Seq<char>>::empty()
        }
    } else {
        let acc = ordered_relays(priority, relays.drop_last());
        let t = trim_seq(relays.last());
        if t.len() == 0 || acc.contains(t) {
            acc
        } else {
            acc.push(t)
        }
    }
}

fn contains_string(list: &Vec<String>, x: &Vec<char>) -> (b: bool)
    ensures
        b == views(list@).contains(x@),
{
    let mut i: usize = 0;
    while i < list.len()
        invariant
            i <= list@.len(),
            forall|j: int| 0 <= j < i ==> list@[j]@ != x@,
        decreases list@.len() - i,
    {
        let v = chars_of(list[i].as_str());
        if chars_equal(&v, x) {
            proof {
                assert(views(list@)[i as int] == x@);
            }
            return true;
        }
        i = i + 1;
    }
    proof {
        assert forall|j: int| 0 <= j < views(list@).len() implies views(list@)[j] != x@ by {
            assert(views(list@)[j] == list@[j]@);
        }
    }
    false
}

/// Relays for invite bootstrap: `priority_relay` first, then the rest,
/// without blanks or repeats.
pub fn dedupe_relays(priority_relay: &str, relays: &[String]) -> (r: Vec<String>)
    ensures
        views(r@) == ordered_relays(priority_relay@, views(relays@)),
{
    let mut ordered: Vec<String> = Vec::new();
    let priority = trim(priority_relay);
    if chars_of(priority.as_str()).len() > 0 {
        ordered.push(priority);
    }
    let mut i: usize = 0;
    proof {
        assert(views(relays@).take(0) =~= Seq::<Seq<char>>::empty());
        assert(views(ordered@) =~= ordered_relays(priority_relay@, views(relays@).take(0)));
    }
    while i < relays.len()
        invariant
            i <= relays@.len(),
            views(ordered@) == ordered_relays(priority_relay@, views(relays@).take(i as int)),
        decreases relays@.len() - i,
    {
        proof {
            assert(views(relays@).take(i + 1).drop_last() =~= views(relays@).take(i as int));
            assert(views(relays@).take(i + 1).last() == relays@[i as int]@);
        }
        let v = chars_of(relays[i].as_str());
        let t = trim_chars(&v);
        if t.len() > 0 && !contains_string(&ordered, &t) {
            ordered.push(crate::text::string_of(t.as_slice()));
            proof {
                assert(views(ordered@) =~= ordered_relays(
                    priority_relay@,
                    views(relays@).take(i as int),
                ).push(t@));
            }
        }
        i = i + 1;
    }
    proof {
        assert(views(relays@).take(relays@.len() as int) =~= views(relays@));
    }
    ordered
}

/// Peer ids of the relays that carry one, in order.
pub open spec fn peer_ids_of(relays: Seq<Seq<char>>) -> Seq<Seq<char>>
    decreases relays.len(),
{
    if relays.len() == 0 {
        Seq::<Seq<char>>::empty()
    } else {
        let r = peer_ids_of(relays.drop_last());
        match multiaddr_peer_id(relays.last()) {
            Some(id) => r.push(id),
            None => r,
        }
    }
}

pub fn relay_peer_ids(relays: &[String]) -> (r: Vec<String>)
    ensures
        views(r@) == peer_ids_of(views(relays@)),
{
    let mut out: Vec<String> = Vec::new();
    let mut i: usize = 0;
    proof {
        assert(views(relays@).take(0) =~= Seq::<Seq<char>>::empty());
    }
    while i < relays.len()
        invariant
            i <= relays@.len(),
            views(out@) == peer_ids_of(views(relays@).take(i as int)),
        decreases relays@.len() - i,
    {
        proof {
            assert(views(relays@).take(i + 1).drop_last() =~= views(relays@).take(i as int));
            assert(views(relays@).take(i + 1).last() == relays@[i as int]@);
        }
        match peer_id_from_multiaddr_str(relays[i].as_str()) {
            Some(id) => {
                out.push(id);
                proof {
                    assert(views(out@) =~= peer_ids_of(views(relays@).take(i as int)).push(id@));
                }
            },
            None => {},
        }
        i = i + 1;
    }
    proof {
        assert(views(relays@).take(relays@.len() as int) =~= views(relays@));
    }
    out
}

/// Number of dials made while accepting an invite.
pub fn invite_dial_limit(n_targets: usize) -> (r: usize)
    ensures
        r == if n_targets < INVITE_ACCEPT_DIAL_ATTEMPTS {
            n_targets
        } else {
            INVITE_ACCEPT_DIAL_ATTEMPTS
        },
{
    if n_targets < INVITE_ACCEPT_DIAL_ATTEMPTS {
        n_targets
    } else {
        INVITE_ACCEPT_DIAL_ATTEMPTS
    }
}

/// Relay circuits come before direct addresses.
pub open spec fn circuits_first(s: Seq<Seq<char>>) -> bool {
    forall|i: int, j: int| 0 <= i < j < s.len() ==> dial_rank(s[i]) <= dial_rank(s[j])
}

proof fn lemma_dedup_elements(s: Seq<Seq<char>>)
    ensures
        forall|k: int| 0 <= k < dedup_adjacent(s).len() ==> s.contains(#[trigger] dedup_adjacent(s)[k]),
        forall|k: int| 0 <= k < s.len() ==> dedup_adjacent(s).contains(#[trigger] s[k]),
    decreases s.len(),
{
    if s.len() > 0 {
        let d = s.drop_last();
        lemma_dedup_elements(d);
        let r = dedup_adjacent(d);
        assert forall|k: int| 0 <= k < dedup_adjacent(s).len() implies s.contains(
            #[trigger] dedup_adjacent(s)[k],
        ) by {
            if k < r.len() {
                assert(d.contains(r[k]));
                let m = choose|m: int| 0 <= m < d.len() && d[m] == r[k];
                assert(s[m] == d[m]);
            } else {
                assert(dedup_adjacent(s)[k] == s[s.len() - 1]);
            }
        }
        assert forall|k: int| 0 <= k < s.len() implies dedup_adjacent(s).contains(#[trigger] s[k]) by {
            if k < s.len() - 1 {
                assert(d[k] == s[k]);
                assert(r.contains(d[k]));
                let m = choose|m: int| 0 <= m < r.len() && r[m] == d[k];
                assert(dedup_adjacent(s)[m] == r[m]);
            } else if s.len() >= 2 && s[s.len() - 2] == s.last() {
                assert(d[s.len() - 2] == s[s.len() - 2]);
                assert(r.contains(d[s.len() - 2]));
                let m = choose|m: int| 0 <= m < r.len() && r[m] == d[s.len() - 2];
                assert(dedup_adjacent(s)[m] == r[m]);
            } else {
                assert(dedup_adjacent(s)[r.len() as int] == s.last());
            }
        }
    }
}

proof fn lemma_dedup_keeps_order(s: Seq<Seq<char>>)
    requires
        circuits_first(s),
    ensures
        circuits_first(dedup_adjacent(s)),
    decreases s.len(),
{
    if s.len() > 0 {
        let d = s.drop_last();
        assert(circuits_first(d));
        lemma_dedup_keeps_order(d);
        lemma_dedup_elements(d);
        let r = dedup_adjacent(d);
        assert forall|i: int, j: int| 0 <= i < j < dedup_adjacent(s).len() implies dial_rank(
            dedup_adjacent(s)[i],
        ) <= dial_rank(dedup_adjacent(s)[j]) by {
            if j >= r.len() {
                assert(d.contains(r[i]));
                let m = choose|m: int| 0 <= m < d.len() && d[m] == r[i];
                assert(s[m] == d[m]);
            }
        }
    }
}

/// Dial order puts every relay circuit before every direct address, and
/// keeps each address it was given.
pub proof fn dial_order_prefers_circuits(addrs: Seq<Seq<char>>)
    ensures
        circuits_first(sorted_dial_addrs(addrs)),
        forall|k: int|
            0 <= k < addrs.len() ==> sorted_dial_addrs(addrs).contains(#[trigger] addrs[k]),
        forall|k: int|
            0 <= k < sorted_dial_addrs(addrs).len() ==> addrs.contains(
                #[trigger] sorted_dial_addrs(addrs)[k],
            ),
{
    let c = friend_addrs(addrs);
    let d = direct_addrs(addrs);
    let all = c + d;
    assert forall|i: int, j: int| 0 <= i < j < all.len() implies dial_rank(all[i]) <= dial_rank(
        all[j],
    ) by {
        if i < c.len() {
            addrs.lemma_filter_pred(|a: Seq<char>| is_circuit_addr(a), i);
        }
        if j >= c.len() {
            addrs.lemma_filter_pred(|a: Seq<char>| !is_circuit_addr(a), j - c.len());
        } else {
            addrs.lemma_filter_pred(|a: Seq<char>| is_circuit_addr(a), j);
        }
    }
    lemma_dedup_keeps_order(all);
    lemma_dedup_elements(all);
    assert forall|k: int| 0 <= k < addrs.len() implies sorted_dial_addrs(addrs).contains(
        #[trigger] addrs[k],
    ) by {
        if is_circuit_addr(addrs[k]) {
            addrs.lemma_filter_contains(|a: Seq<char>| is_circuit_addr(a), k);
            let m = choose|m: int| 0 <= m < c.len() && c[m] == addrs[k];
            assert(all[m] == addrs[k]);
        } else {
            addrs.lemma_filter_contains(|a: Seq<char>| !is_circuit_addr(a), k);
            let m = choose|m: int| 0 <= m < d.len() && d[m] == addrs[k];
            assert(all[c.len() + m] == addrs[k]);
        }
    }
    assert forall|k: int| 0 <= k < sorted_dial_addrs(addrs).len() implies addrs.contains(
        #[trigger] sorted_dial_addrs(addrs)[k],
    ) by {
        let x = sorted_dial_addrs(addrs)[k];
        assert(all.contains(x));
        let m = choose|m: int| 0 <= m < all.len() && all[m] == x;
        if m < c.len() {
            assert(c.contains(x));
            addrs.lemma_filter_contains_rev(|a: Seq<char>| is_circuit_addr(a), x);
        } else {
            assert(d[m - c.len()] == x);
            assert(d.contains(x));
            addrs.lemma_filter_contains_rev(|a: Seq<char>| !is_circuit_addr(a), x);
        }
    }
}

/// Bootstrap order starts with the priority relay and lists no relay twice.
pub proof fn bootstrap_order_starts_with_priority(priority: Seq<char>, relays: Seq<Seq<char>>)
    ensures
        trim_seq(priority).len() > 0 ==> ordered_relays(priority, relays).len() > 0
            && ordered_relays(priority, relays)[0] == trim_seq(priority),
        forall|i: int, j: int|
            0 <= i < j < ordered_relays(priority, relays).len() ==> ordered_relays(
                priority,
                relays,
            )[i] != ordered_relays(priority, relays)[j],
    decreases relays.len(),
{
    if relays.len() > 0 {
        bootstrap_order_starts_with_priority(priority, relays.drop_last());
        let acc = ordered_relays(priority, relays.drop_last());
        let t = trim_seq(relays.last());
        if !(t.len() == 0 || acc.contains(t)) {
            assert forall|i: int, j: int|
                0 <= i < j < acc.push(t).len() implies acc.push(t)[i] != acc.push(t)[j] by {
                if j == acc.len() {
                    assert(acc.push(t)[i] == acc[i]);
                }
            }
        }
    }
}

proof fn lemma_circuits_via_members(relays: Seq<Seq<char>>, peer_id: Seq<char>)
    ensures
        forall|k: int|
            0 <= k < relays.len() && (#[trigger] circuit_dial_addr(relays[k], peer_id)) is Some
                ==> circuits_via(relays, peer_id).contains(circuit_dial_addr(relays[k], peer_id)->0),
        forall|m: int|
            0 <= m < circuits_via(relays, peer_id).len() ==> exists|k: int|
                0 <= k < relays.len() && circuit_dial_addr(relays[k], peer_id) == Some(
                    #[trigger] circuits_via(relays, peer_id)[m],
                ),
    decreases relays.len(),
{
    if relays.len() > 0 {
        let init = relays.drop_last();
        lemma_circuits_via_members(init, peer_id);
        let r = circuits_via(init, peer_id);
        let full = circuits_via(relays, peer_id);
        assert forall|k: int|
            0 <= k < relays.len() && (#[trigger] circuit_dial_addr(relays[k], peer_id)) is Some
                implies full.contains(circuit_dial_addr(relays[k], peer_id)->0) by {
            let c = circuit_dial_addr(relays[k], peer_id)->0;
            if k < init.len() {
                assert(init[k] == relays[k]);
                assert(circuit_dial_addr(init[k], peer_id) is Some);
                assert(r.contains(c));
                let m = choose|m: int| 0 <= m < r.len() && r[m] == c;
                assert(full[m] == r[m]);
            } else {
                assert(relays[k] == relays.last());
                assert(full[r.len() as int] == c);
            }
        }
        assert forall|m: int| 0 <= m < full.len() implies exists|k: int|
            0 <= k < relays.len() && circuit_dial_addr(relays[k], peer_id) == Some(
                #[trigger] full[m],
            ) by {
            if m < r.len() {
                assert(full[m] == r[m]);
                let k = choose|k: int|
                    0 <= k < init.len() && circuit_dial_addr(init[k], peer_id) == Some(r[m]);
                assert(relays[k] == init[k]);
            } else {
                assert(circuit_dial_addr(relays[relays.len() - 1], peer_id) == Some(full[m]));
            }
        }
    }
}

/// When relays are configured, a friend with a known peer id is dialled
/// through every relay that yields a circuit address, and through each of
/// the friend's own circuit addresses; every dial target is one of these.
pub proof fn contact_dials_every_relay(
    peer_id: Seq<char>,
    multiaddrs: Seq<Seq<char>>,
    relays: Seq<Seq<char>>,
)
    requires
        relays.len() > 0,
    ensures
        forall|k: int|
            0 <= k < relays.len() && (#[trigger] circuit_dial_addr(relays[k], peer_id)) is Some
                ==> contact_dial_targets(Some(peer_id), multiaddrs, relays).contains(
                circuit_dial_addr(relays[k], peer_id)->0,
            ),
        forall|k: int|
            0 <= k < multiaddrs.len() && is_circuit_addr(#[trigger] multiaddrs[k])
                ==> contact_dial_targets(Some(peer_id), multiaddrs, relays).contains(multiaddrs[k]),
        forall|m: int|
            0 <= m < contact_dial_targets(Some(peer_id), multiaddrs, relays).len() ==> {
                let t = #[trigger] contact_dial_targets(Some(peer_id), multiaddrs, relays)[m];
                (exists|k: int|
                    0 <= k < relays.len() && circuit_dial_addr(relays[k], peer_id) == Some(t))
                    || (multiaddrs.contains(t) && is_circuit_addr(t))
            },
{
    let c = circuits_via(relays, peer_id);
    let f = friend_addrs(multiaddrs);
    let all = c + f;
    lemma_circuits_via_members(relays, peer_id);
    dial_order_prefers_circuits(all);
    let out = contact_dial_targets(Some(peer_id), multiaddrs, relays);
    assert(out == sorted_dial_addrs(all));
    assert forall|k: int|
        0 <= k < relays.len() && (#[trigger] circuit_dial_addr(relays[k], peer_id)) is Some
            implies out.contains(circuit_dial_addr(relays[k], peer_id)->0) by {
        let x = circuit_dial_addr(relays[k], peer_id)->0;
        assert(c.contains(x));
        let m = choose|m: int| 0 <= m < c.len() && c[m] == x;
        assert(all[m] == x);
    }
    assert forall|k: int|
        0 <= k < multiaddrs.len() && is_circuit_addr(#[trigger] multiaddrs[k]) implies out.contains(
        multiaddrs[k],
    ) by {
        multiaddrs.lemma_filter_contains(|a: Seq<char>| is_circuit_addr(a), k);
        let m = choose|m: int| 0 <= m < f.len() && f[m] == multiaddrs[k];
        assert(all[c.len() + m] == multiaddrs[k]);
    }
    assert forall|m: int| 0 <= m < out.len() implies {
        let t = #[trigger] out[m];
        (exists|k: int| 0 <= k < relays.len() && circuit_dial_addr(relays[k], peer_id) == Some(t))
            || (multiaddrs.contains(t) && is_circuit_addr(t))
    } by {
        let t = out[m];
        assert(all.contains(t));
        let j = choose|j: int| 0 <= j < all.len() && all[j] == t;
        if j < c.len() {
            assert(c[j] == t);
        } else {
            assert(f[j - c.len()] == t);
            assert(f.contains(t));
            multiaddrs.lemma_filter_contains_rev(|a: Seq<char>| is_circuit_addr(a), t);
        }
    }
}

/// While accepting an invite from a peer with a known id, the inviter is
/// dialled through the invite's relay, through every configured relay that
/// yields a circuit address, and through each of its own circuit
/// addresses.
pub proof fn inviter_dials_every_relay(
    peer_id: Seq<char>,
    invite_relay: Seq<char>,
    multiaddrs: Seq<Seq<char>>,
    relays: Seq<Seq<char>>,
)
    ensures
        circuit_dial_addr(invite_relay, peer_id) is Some ==> inviter_dial_targets(
            Some(peer_id),
            invite_relay,
            multiaddrs,
            relays,
        ).contains(circuit_dial_addr(invite_relay, peer_id)->0),
        forall|k: int|
            0 <= k < relays.len() && (#[trigger] circuit_dial_addr(relays[k], peer_id)) is Some
                ==> inviter_dial_targets(Some(peer_id), invite_relay, multiaddrs, relays).contains(
                circuit_dial_addr(relays[k], peer_id)->0,
            ),
        forall|k: int|
            0 <= k < multiaddrs.len() && is_circuit_addr(#[trigger] multiaddrs[k])
                ==> inviter_dial_targets(Some(peer_id), invite_relay, multiaddrs, relays).contains(
                multiaddrs[k],
            ),
{
    let a = circuits_via(seq![invite_relay], peer_id);
    let c = circuits_via(relays, peer_id);
    let f = friend_addrs(multiaddrs);
    let all = a + c + f;
    lemma_circuits_via_members(seq![invite_relay], peer_id);
    lemma_circuits_via_members(relays, peer_id);
    dial_order_prefers_circuits(all);
    let out = inviter_dial_targets(Some(peer_id), invite_relay, multiaddrs, relays);
    assert(out == sorted_dial_addrs(all));
    if circuit_dial_addr(invite_relay, peer_id) is Some {
        let x = circuit_dial_addr(invite_relay, peer_id)->0;
        assert(seq![invite_relay][0] == invite_relay);
        assert(a.contains(x));
        let m = choose|m: int| 0 <= m < a.len() && a[m] == x;
        assert(all[m] == x);
    }
    assert forall|k: int|
        0 <= k < relays.len() && (#[trigger] circuit_dial_addr(relays[k], peer_id)) is Some
            implies out.contains(circuit_dial_addr(relays[k], peer_id)->0) by {
        let x = circuit_dial_addr(relays[k], peer_id)->0;
        assert(c.contains(x));
        let m = choose|m: int| 0 <= m < c.len() && c[m] == x;
        assert(all[a.len() + m] == x);
    }
    assert forall|k: int|
        0 <= k < multiaddrs.len() && is_circuit_addr(#[trigger] multiaddrs[k]) implies out.contains(
        multiaddrs[k],
    ) by {
        multiaddrs.lemma_filter_contains(|x: Seq<char>| is_circuit_addr(x), k);
        let m = choose|m: int| 0 <= m < f.len() && f[m] == multiaddrs[k];
        assert(all[a.len() + c.len() + m] == multiaddrs[k]);
    }
}

} // verus!
