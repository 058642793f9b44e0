//! Relay lists: parsing pasted lists, merging a relay from an invite,
//! picking the invite relay and comparing lists.
use vstd::prelude::*;

use crate::error::CoreError;
use crate::text::{
    chars_equal, chars_of, copy_strings, split_chars, split_seq, trim, trim_chars, trim_seq, views,
};

use super::p2p::{
    multiaddr_peer_id, peer_id_from_multiaddr_str, relay_addr_problem, validate_relay_multiaddr,
};

verus! {

broadcast use crate::text::group_views;

/// Trimmed, non-empty pieces, in order.
pub open spec fn trimmed_nonempty(pieces: Seq<Seq<char>>) -> Seq<Seq<char>>
    decreases pieces.len(),
{
    if pieces.len() == 0 {
        Seq::<Seq<char>>::empty()
    } else {
        let rest = trimmed_nonempty(pieces.drop_last());
        let t = trim_seq(pieces.last());
        if t.len() > 0 {
            rest.push(t)
        } else {
            rest
        }
    }
}

/// The relays of a comma- or newline-separated list.
pub open spec fn relay_list_of(raw: Seq<char>) -> Seq<Seq<char>> {
    trimmed_nonempty(split_seq(raw, seq![',', '\n']))
}

/// Split comma- or newline-separated relay multiaddrs (used by the
/// environment and by pasting in the UI).
pub fn parse_relay_multiaddrs(raw: &str) -> (r: Vec<String>)
    ensures
        views(r@) == relay_list_of(raw@),
{
    let mut seps: Vec<char> = Vec::new();
    seps.push(',');
    seps.push('\n');
    let pieces = split_chars(raw, &seps);
    let mut out: Vec<String> = Vec::new();
    let mut i: usize = 0;
    proof {
        assert(seps@ =~= seq![',', '\n']);
        assert(views(pieces@).take(0) =~= Seq::<Seq<char>>::empty());
    }
    while i < pieces.len()
        invariant
            i <= pieces@.len(),
            views(out@) == trimmed_nonempty(views(pieces@).take(i as int)),
        decreases pieces@.len() - i,
    {
        proof {
            assert(views(pieces@).take(i + 1).drop_last() =~= views(pieces@).take(i as int));
            assert(views(pieces@).take(i + 1).last() == pieces@[i as int]@);
        }
        let t = trim(pieces[i].as_str());
        if chars_of(t.as_str()).len() > 0 {
            out.push(t);
            proof {
                assert(views(out@) =~= trimmed_nonempty(views(pieces@).take(i as int)).push(
                    trim_seq(pieces@[i as int]@),
                ));
            }
        }
        i = i + 1;
    }
    proof {
        assert(views(pieces@).take(pieces@.len() as int) =~= views(pieces@));
    }
    out
}

/// Peer id of a relay multiaddr.
pub fn relay_peer_id(multiaddr: &str) -> (r: Option<String>)
    ensures
        match r {
            Some(id) => multiaddr_peer_id(multiaddr@) == Some(id@),
            None => multiaddr_peer_id(multiaddr@) is None,
        },
{
    peer_id_from_multiaddr_str(multiaddr)
}

/// Every relay of the list is a full relay address.
pub fn validate_relay_list(relays: &[String]) -> (r: Result<(), CoreError>)
    ensures
        match r {
            Ok(_) => forall|i: int|
                0 <= i < relays@.len() ==> relay_addr_problem(#[trigger] relays@[i]@) is None,
            Err(e) => exists|k: int|
                0 <= k < relays@.len() && (forall|i: int|
                    0 <= i < k ==> relay_addr_problem(#[trigger] relays@[i]@) is None)
                    && (e matches CoreError::P2p(m) && relay_addr_problem(#[trigger] relays@[k]@) == Some(
                    m@,
                )),
        },
{
    let mut i: usize = 0;
    while i < relays.len()
        invariant
            i <= relays@.len(),
            forall|j: int| 0 <= j < i ==> relay_addr_problem(#[trigger] relays@[j]@) is None,
        decreases relays@.len() - i,
    {
        match validate_relay_multiaddr(relays[i].as_str()) {
            Ok(_) => {},
            Err(e) => {
                return Err(e);
            },
        }
        i = i + 1;
    }
    Ok(())
}

/// Whether some relay of `list` carries the peer id `id`.
pub open spec fn has_relay_peer(list: Seq<Seq<char>>, id: Seq<char>) -> bool {
    exists|i: int| 0 <= i < list.len() && multiaddr_peer_id(list[i]) == Some(id)
}

/// `list` with the relay `new` added, unless it is blank or a relay with
/// the same peer id is already listed.
pub open spec fn merged_relays(list: Seq<Seq<char>>, new: Seq<char>) -> Seq<Seq<char>> {
    let t = trim_seq(new);
    if t.len() == 0 {
        list
    } else {
        match multiaddr_peer_id(t) {
            Some(id) if has_relay_peer(list, id) => list,
            _ => list.push(t),
        }
    }
}

/// Add `new` when its relay peer id is not already in `list`.
pub fn merge_relay(list: &[String], new: &str) -> (r: Vec<String>)
    ensures
        views(r@) == merged_relays(views(list@), new@),
{
    let t = trim(new);
    let mut out = copy_strings(list);
    if chars_of(t.as_str()).len() == 0 {
        return out;
    }
    match relay_peer_id(t.as_str()) {
        Some(id) => {
            let idv = chars_of(id.as_str());
            let mut i: usize = 0;
            while i < list.len()
                invariant
                    i <= list@.len(),
                    idv@ == id@,
                    t@ == trim_seq(new@),
                    multiaddr_peer_id(t@) == Some(id@),
                    views(out@) == views(list@),
                    forall|j: int|
                        0 <= j < i ==> multiaddr_peer_id(#[trigger] list@[j]@) != Some(id@),
                decreases list@.len() - i,
            {
                match relay_peer_id(list[i].as_str()) {
                    Some(other) => {
                        let ov = chars_of(other.as_str());
                        if chars_equal(&ov, &idv) {
                            proof {
                                assert(multiaddr_peer_id(views(list@)[i as int]) == Some(id@));
                                assert(has_relay_peer(views(list@), id@));
                            }
                            return out;
                        }
                    },
                    None => {},
                }
                i = i + 1;
            }
            proof {
                assert(!has_relay_peer(views(list@), id@));
            }
        },
        None => {},
    }
    out.push(t);
    proof {
        assert(views(out@) =~= views(list@).push(trim_seq(new@)));
    }
    out
}

/// Whether `relay` names a peer among `connected`.
pub open spec fn relay_connected(relay: Seq<char>, connected: Seq<Seq<char>>) -> bool {
    match multiaddr_peer_id(relay) {
        Some(id) => connected.contains(id),
        None => false,
    }
}

fn is_relay_connected(relay: &String, connected: &[String]) -> (b: bool)
    ensures
        b == relay_connected(relay@, views(connected@)),
{
    match relay_peer_id(relay.as_str()) {
        None => false,
        Some(id) => {
            let idv = chars_of(id.as_str());
            let mut i: usize = 0;
            while i < connected.len()
                invariant
                    i <= connected@.len(),
                    idv@ == id@,
                    multiaddr_peer_id(relay@) == Some(id@),
                    forall|j: int| 0 <= j < i ==> connected@[j]@ != id@,
                decreases connected@.len() - i,
            {
                let cv = chars_of(connected[i].as_str());
                if chars_equal(&cv, &idv) {
                    proof {
                        assert(views(connected@)[i as int] == id@);
                        assert(views(connected@).contains(id@));
                    }
                    return true;
                }
                i = i + 1;
            }
            proof {
                assert forall|j: int| 0 <= j < views(connected@).len() implies views(
                    connected@,
                )[j] != id@ by {}
            }
            false
        },
    }
}

/// Primary (first) relay if connected, else the first connected relay.
pub fn select_invite_relay(relays: &[String], connected_peer_ids: &[String]) -> (r: Option<String>)
    ensures
        match r {
            Some(relay) => exists|k: int|
                0 <= k < relays@.len() && relays@[k]@ == relay@ && relay_connected(
                    relays@[k]@,
                    views(connected_peer_ids@),
                ) && forall|j: int|
                    0 <= j < k ==> !relay_connected(
                        #[trigger] relays@[j]@,
                        views(connected_peer_ids@),
                    ),
            None => forall|j: int|
                0 <= j < relays@.len() ==> !relay_connected(
                    #[trigger] relays@[j]@,
                    views(connected_peer_ids@),
                ),
        },
{
    let mut i: usize = 0;
    while i < relays.len()
        invariant
            i <= relays@.len(),
            forall|j: int|
                0 <= j < i ==> !relay_connected(
                    #[trigger] relays@[j]@,
                    views(connected_peer_ids@),
                ),
        decreases relays@.len() - i,
    {
        if is_relay_connected(&relays[i], connected_peer_ids) {
            return Some(relays[i].clone());
        }
        i = i + 1;
    }
    None
}

/// The relays of a list, ignoring order, blanks and surrounding whitespace.
pub open spec fn relay_set(list: Seq<Seq<char>>) -> Set<Seq<char>> {
    Set::new(
        |s: Seq<char>| s.len() > 0 && exists|i: int| 0 <= i < list.len() && trim_seq(list[i]) == s,
    )
}

fn trimmed_relays(list: &[String]) -> (r: Vec<Vec<char>>)
    ensures
        forall|i: int| 0 <= i < r@.len() ==> (#[trigger] r@[i])@.len() > 0,
        forall|s: Seq<char>|
            #![trigger relay_set(views(list@)).contains(s)]
            relay_set(views(list@)).contains(s) <==> exists|i: int|
                0 <= i < r@.len() && (#[trigger] r@[i])@ == s,
{
    let mut out: Vec<Vec<char>> = Vec::new();
    let mut i: usize = 0;
    while i < list.len()
        invariant
            i <= list@.len(),
            forall|k: int| 0 <= k < out@.len() ==> (#[trigger] out@[k])@.len() > 0,
            forall|s: Seq<char>|
                (s.len() > 0 && exists|j: int| 0 <= j < i && trim_seq(list@[j]@) == s) <==> exists|
                    k: int,
                | 0 <= k < out@.len() && (#[trigger] out@[k])@ == s,
        decreases list@.len() - i,
    {
        let v = chars_of(list[i].as_str());
        let t = trim_chars(&v);
        let ghost old_out = out@;
        if t.len() > 0 {
            out.push(t);
        }
        proof {
            assert forall|s: Seq<char>|
                (s.len() > 0 && exists|j: int|
                    0 <= j < i + 1 && trim_seq(list@[j]@) == s) <==> exists|k: int|
                    0 <= k < out@.len() && (#[trigger] out@[k])@ == s by {
                if s.len() > 0 && exists|j: int| 0 <= j < i + 1 && trim_seq(list@[j]@) == s {
                    let j = choose|j: int| 0 <= j < i + 1 && trim_seq(list@[j]@) == s;
                    if j == i {
                        assert(out@[out@.len() - 1]@ == s);
                    } else {
                        let k = choose|k: int| 0 <= k < old_out.len() && old_out[k]@ == s;
                        assert(out@[k]@ == s);
                    }
                }
                if exists|k: int| 0 <= k < out@.len() && (#[trigger] out@[k])@ == s {
                    let k = choose|k: int| 0 <= k < out@.len() && (#[trigger] out@[k])@ == s;
                    if k < old_out.len() {
                        assert(old_out[k]@ == s);
                    } else {
                        assert(trim_seq(list@[i as int]@) == s);
                    }
                }
            }
        }
        i = i + 1;
    }
    proof {
        assert forall|s: Seq<char>|
            relay_set(views(list@)).contains(s) <==> exists|k: int|
                0 <= k < out@.len() && (#[trigger] out@[k])@ == s by {
            if relay_set(views(list@)).contains(s) {
                let j = choose|j: int| 0 <= j < list@.len() && trim_seq(views(list@)[j]) == s;
                assert(trim_seq(list@[j]@) == s);
            }
            if exists|k: int| 0 <= k < out@.len() && (#[trigger] out@[k])@ == s {
                let j = choose|j: int| 0 <= j < list@.len() && trim_seq(list@[j]@) == s;
                assert(trim_seq(views(list@)[j]) == s);
            }
        }
    }
    out
}

/// Whether `x` is an entry of `b`.
pub open spec fn entry_in(b: Seq<Vec<char>>, x: Seq<char>) -> bool {
    exists|j: int| 0 <= j < b.len() && (#[trigger] b[j])@ == x
}

fn has_entry(b: &Vec<Vec<char>>, x: &Vec<char>) -> (r: bool)
    ensures
        r == entry_in(b@, x@),
{
    let mut j: usize = 0;
    while j < b.len()
        invariant
            j <= b@.len(),
            forall|t: int| 0 <= t < j ==> (#[trigger] b@[t])@ != x@,
        decreases b@.len() - j,
    {
        if chars_equal(&b[j], x) {
            return true;
        }
        j = j + 1;
    }
    false
}

/// Whether every entry of `a` occurs in `b`.
fn all_found(a: &Vec<Vec<char>>, b: &Vec<Vec<char>>) -> (r: bool)
    ensures
        r == forall|i: int| 0 <= i < a@.len() ==> entry_in(b@, (#[trigger] a@[i])@),
{
    let mut i: usize = 0;
    while i < a.len()
        invariant
            i <= a@.len(),
            forall|k: int| 0 <= k < i ==> entry_in(b@, (#[trigger] a@[k])@),
        decreases a@.len() - i,
    {
        if !has_entry(b, &a[i]) {
            return false;
        }
        i = i + 1;
    }
    true
}

/// Compare relay lists ignoring order and empty entries.
pub fn relay_lists_equivalent(a: &[String], b: &[String]) -> (r: bool)
    ensures
        r == (relay_set(views(a@)) == relay_set(views(b@))),
{
    let ta = trimmed_relays(a);
    let tb = trimmed_relays(b);
    let ab = all_found(&ta, &tb);
    let ba = all_found(&tb, &ta);
    proof {
        if ab && ba {
            assert(relay_set(views(a@)) =~= relay_set(views(b@)));
        } else if !ab {
            let i = choose|i: int| 0 <= i < ta@.len() && !entry_in(tb@, (#[trigger] ta@[i])@);
            assert(relay_set(views(a@)).contains(ta@[i]@));
            assert(!relay_set(views(b@)).contains(ta@[i]@));
        } else {
            let i = choose|i: int| 0 <= i < tb@.len() && !entry_in(ta@, (#[trigger] tb@[i])@);
            assert(relay_set(views(b@)).contains(tb@[i]@));
            assert(!relay_set(views(a@)).contains(tb@[i]@));
        }
    }
    ab && ba
}

/// Comparing relay lists ignores order: a reordering of a list holds the
/// same relays.
pub proof fn relay_set_ignores_order(a: Seq<Seq<char>>, b: Seq<Seq<char>>)
    requires
        a.to_multiset() == b.to_multiset(),
    ensures
        relay_set(a) == relay_set(b),
{
    broadcast use vstd::seq_lib::group_to_multiset_ensures;

    assert forall|s: Seq<char>| relay_set(a).contains(s) implies relay_set(b).contains(s) by {
        let i = choose|i: int| 0 <= i < a.len() && trim_seq(a[i]) == s;
        assert(a.contains(a[i]));
        assert(b.to_multiset().count(a[i]) > 0);
        assert(b.contains(a[i]));
        let j = choose|j: int| 0 <= j < b.len() && b[j] == a[i];
        assert(trim_seq(b[j]) == s);
    }
    assert forall|s: Seq<char>| relay_set(b).contains(s) implies relay_set(a).contains(s) by {
        let j = choose|j: int| 0 <= j < b.len() && trim_seq(b[j]) == s;
        assert(b.contains(b[j]));
        assert(a.to_multiset().count(b[j]) > 0);
        assert(a.contains(b[j]));
        let i = choose|i: int| 0 <= i < a.len() && a[i] == b[j];
        assert(trim_seq(a[i]) == s);
    }
    assert(relay_set(a) =~= relay_set(b));
}

/// Merging a relay keeps the list in front and adds at most the trimmed
/// relay at the end; merging the same relay again changes nothing when it
/// is blank or carries a peer id.
pub proof fn merge_relay_is_stable(list: Seq<Seq<char>>, new: Seq<char>)
    ensures
        merged_relays(list, new).len() <= list.len() + 1,
        merged_relays(list, new).take(list.len() as int) == list,
        merged_relays(list, new).len() == list.len() + 1 ==> merged_relays(list, new).last()
            == trim_seq(new),
        trim_seq(new).len() == 0 || multiaddr_peer_id(trim_seq(new)) is Some ==> merged_relays(
            merged_relays(list, new),
            new,
        ) == merged_relays(list, new),
{
    let t = trim_seq(new);
    let m = merged_relays(list, new);
    if t.len() > 0 {
        match multiaddr_peer_id(t) {
            Some(id) => {
                if !has_relay_peer(list, id) {
                    assert(m[list.len() as int] == t);
                    assert(has_relay_peer(m, id));
                }
            },
            None => {},
        }
    }
    assert(m.take(list.len() as int) =~= list);
}


/// A relay list written back as one line, the relays joined by commas.
pub open spec fn comma_joined(list: Seq<Seq<char>>) -> Seq<char>
    decreases list.len(),
{
    if list.len() == 0 {
        Seq::<char>::empty()
    } else if list.len() == 1 {
        list[0]
    } else {
        comma_joined(list.drop_last()) + seq![','] + list.last()
    }
}

/// No character of `t` separates relays.
pub open spec fn no_separator(t: Seq<char>) -> bool {
    forall|i: int| 0 <= i < t.len() ==> #[trigger] t[i] != ',' && t[i] != '\n'
}

/// The pieces of `s` between relay separators.
spec fn split_relays(s: Seq<char>) -> Seq<Seq<char>> {
    split_seq(s, seq![',', '\n'])
}

proof fn lemma_split_pieces_have_no_separator(s: Seq<char>)
    ensures
        forall|k: int|
            0 <= k < split_relays(s).len() ==> no_separator(#[trigger] split_relays(s)[k]),
    decreases s.len(),
{
    let seps = seq![',', '\n'];
    if s.len() > 0 {
        lemma_split_pieces_have_no_separator(s.drop_last());
        crate::text::lemma_split_nonempty(s.drop_last(), seps);
        let rest = split_relays(s.drop_last());
        let c = s.last();
        if seps.contains(c) {
            let r = rest.push(Seq::<char>::empty());
            assert(split_relays(s) == r);
            assert forall|k: int| 0 <= k < r.len() implies no_separator(#[trigger] r[k]) by {
                if k < rest.len() {
                    assert(r[k] == rest[k]);
                    assert(no_separator(rest[k]));
                }
            }
        } else {
            assert(c != ',' && c != '\n') by {
                if c == ',' {
                    assert(seps[0] == c);
                }
                if c == '\n' {
                    assert(seps[1] == c);
                }
            }
            let r = rest.update(rest.len() - 1, rest.last().push(c));
            assert(split_relays(s) == r);
            let last = rest[rest.len() - 1];
            assert(no_separator(last));
            assert forall|k: int| 0 <= k < r.len() implies no_separator(#[trigger] r[k]) by {
                if k < rest.len() - 1 {
                    assert(r[k] == rest[k]);
                    assert(no_separator(rest[k]));
                } else {
                    let p = last.push(c);
                    assert(r[k] == p);
                    assert forall|i: int| 0 <= i < p.len() implies #[trigger] p[i] != ',' && p[i]
                        != '\n' by {
                        if i < last.len() {
                            assert(p[i] == last[i]);
                        } else {
                            assert(p[i] == c);
                        }
                    }
                }
            }
        }
    }
}

proof fn lemma_trim_keeps_no_separator(p: Seq<char>)
    requires
        no_separator(p),
    ensures
        no_separator(trim_seq(p)),
        trim_seq(p).len() > 0 ==> trim_seq(trim_seq(p)) == trim_seq(p),
{
    let lo = crate::text::skip_ws(p, 0);
    crate::text::lemma_skip_ws_bounds(p, 0);
    crate::text::lemma_back_ws_bounds(p, lo, p.len() as int);
    let hi = crate::text::back_ws(p, lo, p.len() as int);
    let t = trim_seq(p);
    assert forall|i: int| 0 <= i < t.len() implies #[trigger] t[i] != ',' && t[i] != '\n' by {
        assert(t[i] == p[lo + i]);
    }
    if t.len() > 0 {
        assert(t[0] == p[lo]);
        assert(t.last() == p[hi - 1]);
        crate::text::lemma_trim_before_body(Seq::<char>::empty(), t);
        assert(Seq::<char>::empty() + t =~= t);
        assert(Seq::<char>::empty().skip(0) + t =~= t);
    }
}

proof fn lemma_trimmed_nonempty_props(pieces: Seq<Seq<char>>)
    requires
        forall|k: int| 0 <= k < pieces.len() ==> no_separator(#[trigger] pieces[k]),
    ensures
        forall|k: int|
            0 <= k < trimmed_nonempty(pieces).len() ==> {
                let t = #[trigger] trimmed_nonempty(pieces)[k];
                &&& t.len() > 0
                &&& trim_seq(t) == t
                &&& no_separator(t)
            },
    decreases pieces.len(),
{
    if pieces.len() > 0 {
        let init = pieces.drop_last();
        assert forall|k: int| 0 <= k < init.len() implies no_separator(#[trigger] init[k]) by {
            assert(init[k] == pieces[k]);
        }
        lemma_trimmed_nonempty_props(init);
        lemma_trim_keeps_no_separator(pieces.last());
        let rest = trimmed_nonempty(init);
        let t = trim_seq(pieces.last());
        if t.len() > 0 {
            let r = rest.push(t);
            assert forall|k: int| 0 <= k < r.len() implies {
                let u = #[trigger] r[k];
                &&& u.len() > 0
                &&& trim_seq(u) == u
                &&& no_separator(u)
            } by {
                if k < rest.len() {
                    assert(r[k] == rest[k]);
                }
            }
        }
    }
}

proof fn lemma_trimmed_nonempty_fixed(list: Seq<Seq<char>>)
    requires
        forall|k: int|
            0 <= k < list.len() ==> (#[trigger] list[k]).len() > 0 && trim_seq(list[k])
                == list[k],
    ensures
        trimmed_nonempty(list) == list,
    decreases list.len(),
{
    if list.len() > 0 {
        let init = list.drop_last();
        assert forall|k: int| 0 <= k < init.len() implies (#[trigger] init[k]).len() > 0
            && trim_seq(init[k]) == init[k] by {
            assert(init[k] == list[k]);
        }
        lemma_trimmed_nonempty_fixed(init);
        assert(trim_seq(list.last()) == list[list.len() - 1]);
        assert(init.push(list.last()) =~= list);
    }
}

proof fn lemma_split_extend(a: Seq<char>, b: Seq<char>)
    requires
        no_separator(b),
    ensures
        split_seq(a + b, seq![',', '\n']) == split_seq(a, seq![',', '\n']).update(
            split_seq(a, seq![',', '\n']).len() - 1,
            split_seq(a, seq![',', '\n']).last() + b,
        ),
    decreases b.len(),
{
    let seps = seq![',', '\n'];
    crate::text::lemma_split_nonempty(a, seps);
    let sa = split_seq(a, seps);
    let n = sa.len();
    if b.len() == 0 {
        assert(a + b =~= a);
        assert(sa.last() + b =~= sa.last());
        assert(sa.update(n - 1, sa.last() + b) =~= sa);
    } else {
        let bd = b.drop_last();
        assert forall|i: int| 0 <= i < bd.len() implies #[trigger] bd[i] != ',' && bd[i]
            != '\n' by {
            assert(bd[i] == b[i]);
        }
        lemma_split_extend(a, bd);
        let ab = a + b;
        assert(ab.drop_last() =~= a + bd);
        let c = b.last();
        assert(ab.last() == c);
        assert(c == b[b.len() - 1]);
        assert(!seps.contains(c)) by {
            if seps.contains(c) {
                let j = choose|j: int| 0 <= j < seps.len() && seps[j] == c;
                assert(j == 0 || j == 1);
            }
        }
        let rest = split_seq(a + bd, seps);
        assert(rest == sa.update(n - 1, sa.last() + bd));
        assert(rest.len() == n);
        assert(rest.last() == sa.last() + bd);
        assert((sa.last() + bd).push(c) =~= sa.last() + b);
        assert(rest.update(n - 1, rest.last().push(c)) =~= sa.update(n - 1, sa.last() + b));
    }
}

proof fn lemma_split_joined(list: Seq<Seq<char>>)
    requires
        list.len() > 0,
        forall|k: int| 0 <= k < list.len() ==> no_separator(#[trigger] list[k]),
    ensures
        split_seq(comma_joined(list), seq![',', '\n']) == list,
    decreases list.len(),
{
    let seps = seq![',', '\n'];
    if list.len() == 1 {
        assert(list[0] == list[0]);
        lemma_split_extend(Seq::<char>::empty(), list[0]);
        assert(Seq::<char>::empty() + list[0] =~= list[0]);
        let e = split_seq(Seq::<char>::empty(), seps);
        assert(e == seq![Seq::<char>::empty()]);
        assert(e.last() + list[0] =~= list[0]);
        assert(e.update(0, list[0]) =~= list);
    } else {
        let init = list.drop_last();
        assert forall|k: int| 0 <= k < init.len() implies no_separator(#[trigger] init[k]) by {
            assert(init[k] == list[k]);
        }
        lemma_split_joined(init);
        let j = comma_joined(init);
        let jc = j + seq![','];
        assert(jc.drop_last() =~= j);
        assert(jc.last() == ',');
        assert(seps[0] == ',');
        assert(seps.contains(','));
        let sjc = split_seq(jc, seps);
        assert(sjc == init.push(Seq::<char>::empty()));
        assert(list.last() == list[list.len() - 1]);
        lemma_split_extend(jc, list.last());
        assert(comma_joined(list) == jc + list.last());
        assert(sjc.last() + list.last() =~= list.last());
        assert(sjc.update(sjc.len() - 1, sjc.last() + list.last()) =~= list);
    }
}

/// A parsed relay list reads back the same when written out with commas:
/// its relays are non-empty, already trimmed, and hold no comma or line
/// break.
pub proof fn relay_list_reparses(raw: Seq<char>)
    ensures
        forall|k: int|
            0 <= k < relay_list_of(raw).len() ==> {
                let t = #[trigger] relay_list_of(raw)[k];
                &&& t.len() > 0
                &&& trim_seq(t) == t
                &&& no_separator(t)
            },
        relay_list_of(comma_joined(relay_list_of(raw))) == relay_list_of(raw),
{
    let seps = seq![',', '\n'];
    lemma_split_pieces_have_no_separator(raw);
    let pieces = split_seq(raw, seps);
    assert(split_relays(raw) == pieces);
    assert forall|k: int| 0 <= k < pieces.len() implies no_separator(#[trigger] pieces[k]) by {
        assert(no_separator(split_relays(raw)[k]));
    }
    lemma_trimmed_nonempty_props(pieces);
    let list = relay_list_of(raw);
    assert(list == trimmed_nonempty(pieces));
    if list.len() == 0 {
        let e = split_seq(Seq::<char>::empty(), seps);
        assert(e == seq![Seq::<char>::empty()]);
        assert(e.drop_last() =~= Seq::<Seq<char>>::empty());
        assert(e.last() == Seq::<char>::empty());
        assert(crate::text::skip_ws(Seq::<char>::empty(), 0) == 0);
        assert(crate::text::back_ws(Seq::<char>::empty(), 0, 0) == 0);
        assert(trim_seq(Seq::<char>::empty()).len() == 0);
        assert(comma_joined(list) == Seq::<char>::empty());
        assert(relay_list_of(comma_joined(list)) == trimmed_nonempty(e));
        assert(trimmed_nonempty(e.drop_last()) == Seq::<Seq<char>>::empty());
        assert(trim_seq(e.last()).len() == 0);
        assert(trimmed_nonempty(e) == Seq::<Seq<char>>::empty());
        assert(list =~= Seq::<Seq<char>>::empty());
    } else {
        assert forall|k: int| 0 <= k < list.len() implies no_separator(#[trigger] list[k]) by {
            assert(no_separator(trimmed_nonempty(pieces)[k]));
        }
        assert forall|k: int| 0 <= k < list.len() implies (#[trigger] list[k]).len() > 0
            && trim_seq(list[k]) == list[k] by {
            let t = trimmed_nonempty(pieces)[k];
            assert(t.len() > 0 && trim_seq(t) == t);
        }
        lemma_split_joined(list);
        lemma_trimmed_nonempty_fixed(list);
        assert(relay_list_of(comma_joined(list)) == trimmed_nonempty(
            split_seq(comma_joined(list), seps),
        ));
    }
}

} // verus!
