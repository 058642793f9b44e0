//! Presence of contacts: live session, recently seen, or unreachable.
use vstd::prelude::*;

use crate::storage::{ConnectionState, Contact, InboxEntry, SentMessage};
use crate::engine::ConversationMessage;
use crate::text::{chars_equal, chars_of, opt_view, owned, views};
use crate::time::{is_after, later, nanos_of, now_utc, representable, second, UtcTime};

verus! {

broadcast use crate::text::group_views;

/// A contact known only by its keys, before any network address or
/// session: offline, never seen, with no peer id or phone hash.
pub fn pending_contact(
    contact_id: &str,
    display_name: &str,
    signing_pubkey: &str,
    encryption_pubkey: &str,
) -> (c: Contact)
    ensures
        c.id@ == contact_id@,
        c.display_name@ == display_name@,
        c.signing_pubkey@ == signing_pubkey@,
        c.encryption_pubkey@ == encryption_pubkey@,
        c.phone_hash is None,
        c.peer_id is None,
        c.last_seen is None,
        c.connection_state == ConnectionState::Offline,
        c.multiaddrs@.len() == 0,
{
    Contact {
        id: owned(contact_id),
        phone_hash: None,
        display_name: owned(display_name),
        peer_id: None,
        signing_pubkey: owned(signing_pubkey),
        encryption_pubkey: owned(encryption_pubkey),
        last_seen: None,
        connection_state: ConnectionState::Offline,
        multiaddrs: Vec::new(),
    }
}

/// How long after `last_seen` a contact still counts as reachable: 24 hours.
pub open spec fn reachable_window() -> int {
    24 * 3600 * second()
}

/// Whether the contact was seen within the reachable window before `now`.
pub open spec fn seen_recently(last_seen: Option<UtcTime>, now: UtcTime) -> bool {
    match last_seen {
        Some(seen) => nanos_of(now) - nanos_of(seen) <= reachable_window(),
        None => false,
    }
}

/// Presence of a contact at `now`: online with a live session to its peer,
/// unreachable without any peer hint, reachable when seen in the last
/// 24 hours, else unreachable.
pub open spec fn presence(
    peer_id: Option<Seq<char>>,
    n_multiaddrs: nat,
    last_seen: Option<UtcTime>,
    connected: Seq<Seq<char>>,
    now: UtcTime,
) -> ConnectionState {
    if peer_id is Some && connected.contains(peer_id->0) {
        ConnectionState::Online
    } else if peer_id is None && n_multiaddrs == 0 {
        ConnectionState::Unreachable
    } else if seen_recently(last_seen, now) {
        ConnectionState::Reachable
    } else {
        ConnectionState::Unreachable
    }
}

fn recently_reachable(last_seen: Option<UtcTime>, now: UtcTime) -> (b: bool)
    ensures
        b == seen_recently(last_seen, now),
{
    match last_seen {
        Some(seen) => {
            let n: i128 = now.secs as i128 * 1_000_000_000i128 + now.nanos as i128;
            let s: i128 = seen.secs as i128 * 1_000_000_000i128 + seen.nanos as i128;
            n - s <= 86_400_000_000_000i128
        },
        None => false,
    }
}

pub(crate) fn is_connected(peer_id: &String, connected: &[String]) -> (b: bool)
    ensures
        b == views(connected@).contains(peer_id@),
{
    let p = chars_of(peer_id.as_str());
    let mut i: usize = 0;
    while i < connected.len()
        invariant
            i <= connected@.len(),
            p@ == peer_id@,
            forall|j: int| 0 <= j < i ==> connected@[j]@ != peer_id@,
        decreases connected@.len() - i,
    {
        let c = chars_of(connected[i].as_str());
        if chars_equal(&c, &p) {
            proof {
                assert(views(connected@)[i as int] == peer_id@);
            }
            return true;
        }
        i = i + 1;
    }
    proof {
        assert forall|j: int| 0 <= j < views(connected@).len() implies views(connected@)[j]
            != peer_id@ by {}
    }
    false
}

/// Presence of `contact` at `now`, given the peers with a live session.
pub fn presence_at(contact: &Contact, connected_friend_peer_ids: &[String], now: UtcTime) -> (r:
    ConnectionState)
    ensures
        r == presence(
            opt_view(contact.peer_id),
            contact.multiaddrs@.len(),
            contact.last_seen,
            views(connected_friend_peer_ids@),
            now,
        ),
{
    match &contact.peer_id {
        Some(id) => {
            if is_connected(id, connected_friend_peer_ids) {
                return ConnectionState::Online;
            }
        },
        None => {
            if contact.multiaddrs.len() == 0 {
                return ConnectionState::Unreachable;
            }
        },
    }
    if recently_reachable(contact.last_seen, now) {
        return ConnectionState::Reachable;
    }
    ConnectionState::Unreachable
}

/// Live session plus recent `last_seen`, judged at the current time.
pub fn presence_for_contact(contact: &Contact, connected_friend_peer_ids: &[String]) -> (r:
    ConnectionState)
    ensures
        (r == ConnectionState::Online) == (contact.peer_id is Some && views(
            connected_friend_peer_ids@,
        ).contains(contact.peer_id->0@)),
        (contact.peer_id is None && contact.multiaddrs@.len() == 0) ==> r
            == ConnectionState::Unreachable,
        r != ConnectionState::Offline,
        r == ConnectionState::Reachable ==> contact.last_seen is Some,
        exists|now: UtcTime|
            representable(now) && r == #[trigger] presence(
                opt_view(contact.peer_id),
                contact.multiaddrs@.len(),
                contact.last_seen,
                views(connected_friend_peer_ids@),
                now,
            ),
{
    let now = now_utc();
    let r = presence_at(contact, connected_friend_peer_ids, now);
    assert(representable(now) && r == presence(
        opt_view(contact.peer_id),
        contact.multiaddrs@.len(),
        contact.last_seen,
        views(connected_friend_peer_ids@),
        now,
    ));
    r
}

/// Connected peers that are not relays.
pub open spec fn friend_peers(relay_ids: Seq<Seq<char>>, connected: Seq<Seq<char>>) -> Seq<Seq<char>> {
    connected.filter(|p: Seq<char>| !relay_ids.contains(p))
}

/// Connected libp2p peers excluding the configured relays' peer ids.
pub fn connected_friend_peer_ids(relay_peer_ids: &[String], connected: &[String]) -> (r: Vec<
    String,
>)
    ensures
        views(r@) == friend_peers(views(relay_peer_ids@), views(connected@)),
{
    let mut out: Vec<String> = Vec::new();
    let mut i: usize = 0;
    while i < connected.len()
        invariant
            i <= connected@.len(),
            views(out@) == friend_peers(views(relay_peer_ids@), views(connected@.take(i as int))),
        decreases connected@.len() - i,
    {
        let c = &connected[i];
        proof {
            assert(views(connected@.take(i + 1)) =~= views(connected@.take(i as int)).push(c@));
            views(connected@.take(i as int)).lemma_filter_push(
                c@,
                |p: Seq<char>| !views(relay_peer_ids@).contains(p),
            );
        }
        if !is_connected(c, relay_peer_ids) {
            let ghost before = out@;
            out.push(c.clone());
            proof {
                assert(views(out@) =~= views(before).push(c@));
            }
        }
        i = i + 1;
    }
    proof {
        assert(connected@.take(connected@.len() as int) =~= connected@);
    }
    out
}

/// A received message as a conversation entry.
pub open spec fn received_message(e: InboxEntry) -> ConversationMessage {
    ConversationMessage {
        content_id: e.content_id,
        body: e.body,
        at: e.received_at,
        expires_at: e.expires_at,
        is_own: false,
        delivery_status: None,
    }
}

/// A sent message as a conversation entry.
pub open spec fn sent_message(e: SentMessage) -> ConversationMessage {
    ConversationMessage {
        content_id: e.content_id,
        body: e.body,
        at: e.sent_at,
        expires_at: e.expires_at,
        is_own: true,
        delivery_status: Some(e.status),
    }
}

/// `x` placed after every entry of the time-sorted `s` that is not later
/// than it.
pub open spec fn insert_by_time(s: Seq<ConversationMessage>, x: ConversationMessage) -> Seq<
    ConversationMessage,
>
    decreases s.len(),
{
    if s.len() == 0 {
        seq![x]
    } else if later(s.last().at, x.at) {
        insert_by_time(s.drop_last(), x).push(s.last())
    } else {
        s.push(x)
    }
}

/// The entries ordered by time; entries of the same time keep their order
/// (a stable sort).
pub open spec fn sort_by_time(s: Seq<ConversationMessage>) -> Seq<ConversationMessage>
    decreases s.len(),
{
    if s.len() == 0 {
        Seq::<ConversationMessage>::empty()
    } else {
        insert_by_time(sort_by_time(s.drop_last()), s.last())
    }
}

/// A conversation: received messages, then sent ones, sorted by time.
pub open spec fn conversation(received: Seq<InboxEntry>, sent: Seq<SentMessage>) -> Seq<
    ConversationMessage,
> {
    sort_by_time(
        received.map_values(|e: InboxEntry| received_message(e)) + sent.map_values(
            |e: SentMessage| sent_message(e),
        ),
    )
}

fn insert_message(sorted: &mut Vec<ConversationMessage>, x: ConversationMessage)
    ensures
        final(sorted)@ == insert_by_time(old(sorted)@, x),
{
    let ghost s = sorted@;
    let mut j: usize = sorted.len();
    assert(s.take(s.len() as int) =~= s);
    assert(s.skip(s.len() as int) =~= Seq::<ConversationMessage>::empty());
    assert(insert_by_time(s, x) + Seq::<ConversationMessage>::empty() =~= insert_by_time(s, x));
    while j > 0 && is_after(sorted[j - 1].at, x.at)
        invariant
            sorted@ == s,
            j <= s.len(),
            insert_by_time(s, x) == insert_by_time(s.take(j as int), x) + s.skip(j as int),
        decreases j,
    {
        proof {
            assert(s.take(j as int).drop_last() =~= s.take(j - 1));
            assert(s.take(j as int).last() == s[j - 1]);
            assert(seq![s[j - 1]] + s.skip(j as int) =~= s.skip(j - 1));
            assert(insert_by_time(s.take(j - 1), x).push(s[j - 1]) + s.skip(j as int)
                =~= insert_by_time(s.take(j - 1), x) + s.skip(j - 1));
        }
        j = j - 1;
    }
    proof {
        if j == 0 {
            assert(s.take(0) =~= Seq::<ConversationMessage>::empty());
        } else {
            assert(s.take(j as int).last() == s[j - 1]);
        }
        assert(insert_by_time(s.take(j as int), x) + s.skip(j as int) =~= s.insert(j as int, x));
    }
    sorted.insert(j, x);
}

fn copy_message(m: &ConversationMessage) -> (r: ConversationMessage)
    ensures
        r == *m,
{
    ConversationMessage {
        content_id: m.content_id.clone(),
        body: m.body.clone(),
        at: m.at,
        expires_at: m.expires_at,
        is_own: m.is_own,
        delivery_status: m.delivery_status,
    }
}

/// Messages of a conversation from what was received and what was sent,
/// oldest first.
pub fn conversation_messages(received: &[InboxEntry], sent: &[SentMessage]) -> (r: Vec<
    ConversationMessage,
>)
    ensures
        r@ == conversation(received@, sent@),
{
    let mut all: Vec<ConversationMessage> = Vec::new();
    let mut i: usize = 0;
    while i < received.len()
        invariant
            i <= received@.len(),
            all@ == received@.take(i as int).map_values(|e: InboxEntry| received_message(e)),
        decreases received@.len() - i,
    {
        let e = &received[i];
        all.push(
            ConversationMessage {
                content_id: e.content_id.clone(),
                body: e.body.clone(),
                at: e.received_at,
                expires_at: e.expires_at,
                is_own: false,
                delivery_status: None,
            },
        );
        i = i + 1;
        proof {
            assert(all@ =~= received@.take(i as int).map_values(|e: InboxEntry| received_message(e)));
        }
    }
    let ghost first = all@;
    let mut k: usize = 0;
    while k < sent.len()
        invariant
            k <= sent@.len(),
            first == received@.map_values(|e: InboxEntry| received_message(e)),
            all@ == first + sent@.take(k as int).map_values(|e: SentMessage| sent_message(e)),
        decreases sent@.len() - k,
    {
        let e = &sent[k];
        all.push(
            ConversationMessage {
                content_id: e.content_id.clone(),
                body: e.body.clone(),
                at: e.sent_at,
                expires_at: e.expires_at,
                is_own: true,
                delivery_status: Some(e.status),
            },
        );
        k = k + 1;
        proof {
            assert(all@ =~= first + sent@.take(k as int).map_values(|e: SentMessage| sent_message(e)));
        }
    }
    proof {
        assert(received@.take(received@.len() as int) =~= received@);
        assert(sent@.take(sent@.len() as int) =~= sent@);
    }
    let mut sorted: Vec<ConversationMessage> = Vec::new();
    let mut n: usize = 0;
    while n < all.len()
        invariant
            n <= all@.len(),
            sorted@ == sort_by_time(all@.take(n as int)),
        decreases all@.len() - n,
    {
        proof {
            assert(all@.take(n + 1).drop_last() =~= all@.take(n as int));
        }
        let m = copy_message(&all[n]);
        insert_message(&mut sorted, m);
        n = n + 1;
    }
    proof {
        assert(all@.take(all@.len() as int) =~= all@);
    }
    sorted
}

/// Each entry is no later than the ones after it.
pub open spec fn time_ordered(s: Seq<ConversationMessage>) -> bool {
    forall|i: int, j: int| 0 <= i < j < s.len() ==> !later(s[i].at, s[j].at)
}

proof fn lemma_insert_by_time(s: Seq<ConversationMessage>, x: ConversationMessage)
    requires
        time_ordered(s),
    ensures
        time_ordered(insert_by_time(s, x)),
        insert_by_time(s, x).to_multiset() == s.to_multiset().insert(x),
    decreases s.len(),
{
    broadcast use vstd::seq_lib::group_to_multiset_ensures;

    if s.len() == 0 {
        assert(insert_by_time(s, x) =~= seq![x]);
        assert(seq![x] =~= Seq::<ConversationMessage>::empty().push(x));
    } else if later(s.last().at, x.at) {
        let d = s.drop_last();
        assert(time_ordered(d));
        lemma_insert_by_time(d, x);
        let r = insert_by_time(d, x);
        assert forall|k: int| 0 <= k < r.len() implies !later(#[trigger] r[k].at, s.last().at) by {
            assert(r.to_multiset().count(r[k]) > 0);
            assert(d.to_multiset().insert(x).count(r[k]) > 0);
            if r[k] != x {
                assert(d.to_multiset().count(r[k]) > 0);
                assert(d.contains(r[k]));
                let m = choose|m: int| 0 <= m < d.len() && d[m] == r[k];
                assert(s[m] == d[m]);
                assert(!later(s[m].at, s[s.len() - 1].at));
            }
        }
        assert(s =~= d.push(s.last()));
    } else {
        assert forall|i: int, j: int| 0 <= i < j < s.push(x).len() implies !later(
            s.push(x)[i].at,
            s.push(x)[j].at,
        ) by {
            if j == s.len() {
                assert(!later(s[i].at, s[s.len() - 1].at) || i == s.len() - 1);
            }
        }
    }
}

proof fn lemma_sort_by_time(s: Seq<ConversationMessage>)
    ensures
        time_ordered(sort_by_time(s)),
        sort_by_time(s).to_multiset() == s.to_multiset(),
    decreases s.len(),
{
    broadcast use vstd::seq_lib::group_to_multiset_ensures;

    if s.len() > 0 {
        lemma_sort_by_time(s.drop_last());
        lemma_insert_by_time(sort_by_time(s.drop_last()), s.last());
        assert(s =~= s.drop_last().push(s.last()));
    }
}

/// A conversation lists every received and sent message exactly once,
/// oldest first.
pub proof fn conversation_is_ordered(received: Seq<InboxEntry>, sent: Seq<SentMessage>)
    ensures
        time_ordered(conversation(received, sent)),
        conversation(received, sent).to_multiset() == (received.map_values(
            |e: InboxEntry| received_message(e),
        ) + sent.map_values(|e: SentMessage| sent_message(e))).to_multiset(),
{
    lemma_sort_by_time(
        received.map_values(|e: InboxEntry| received_message(e)) + sent.map_values(
            |e: SentMessage| sent_message(e),
        ),
    );
}

} // verus!
