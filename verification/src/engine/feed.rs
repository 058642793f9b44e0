//! The feed: own posts and friends' posts, merged with the archive when
//! feed history is on, newest first.
use vstd::prelude::*;

use crate::error::CoreError;
use crate::storage::{Contact, FeedItem, InboxEntry, LocalPost};
use crate::text::{opt_view, owned, str_eq, trim, trim_seq};
use crate::time::{is_after, later};

verus! {

/// Name shown for `key`: the display name of the last contact whose id or
/// signing key is `key`, else `Friend`.
pub open spec fn author_name_for(contacts: Seq<Contact>, key: Seq<char>) -> Seq<char>
    decreases contacts.len(),
{
    if contacts.len() == 0 {
        "Friend"@
    } else if contacts.last().id@ == key || contacts.last().signing_pubkey@ == key {
        contacts.last().display_name@
    } else {
        author_name_for(contacts.drop_last(), key)
    }
}

fn author_name(contacts: &[Contact], key: &str) -> (r: String)
    ensures
        r@ == author_name_for(contacts@, key@),
{
    let mut i: usize = contacts.len();
    assert(contacts@.take(contacts@.len() as int) =~= contacts@);
    while i > 0
        invariant
            i <= contacts@.len(),
            author_name_for(contacts@, key@) == author_name_for(contacts@.take(i as int), key@),
        decreases i,
    {
        let c = &contacts[i - 1];
        assert(contacts@.take(i as int).last() == contacts@[i - 1]);
        if str_eq(c.id.as_str(), key) || str_eq(c.signing_pubkey.as_str(), key) {
            return c.display_name.clone();
        }
        proof {
            assert(contacts@.take(i as int).drop_last() =~= contacts@.take(i - 1));
        }
        i = i - 1;
    }
    owned("Friend")
}

/// The feed item of an own post.
pub open spec fn own_item(
    p: LocalPost,
    author_id: Seq<char>,
    author_name: Seq<char>,
    it: FeedItem,
) -> bool {
    &&& it.content_id@ == p.content_id@
    &&& it.author_id@ == author_id
    &&& it.author_name@ == author_name
    &&& it.body@ == p.body@
    &&& opt_view(it.media_ref) == opt_view(p.media_ref)
    &&& it.created_at == p.created_at
    &&& it.expires_at == p.expires_at
    &&& it.is_own
    &&& !it.is_archived
    &&& it.comment_count == 0
}

/// The feed item of a friend's post.
pub open spec fn friend_item(e: InboxEntry, contacts: Seq<Contact>, it: FeedItem) -> bool {
    &&& it.content_id@ == e.content_id@
    &&& it.author_id@ == e.sender_id@
    &&& it.author_name@ == author_name_for(contacts, e.sender_id@)
    &&& it.body@ == e.body@
    &&& opt_view(it.media_ref) == opt_view(e.media_ref)
    &&& it.created_at == e.received_at
    &&& it.expires_at == e.expires_at
    &&& !it.is_own
    &&& !it.is_archived
    &&& it.comment_count == 0
}

fn copy_opt(o: &Option<String>) -> (r: Option<String>)
    ensures
        r == *o,
{
    match o {
        Some(s) => Some(s.clone()),
        None => None,
    }
}

/// Feed items that expire: own posts first, then friends' posts.
pub fn ephemeral_feed_items(
    display_name: &str,
    signing_pubkey: &str,
    contacts: &[Contact],
    local_posts: &[LocalPost],
    inbox_posts: &[InboxEntry],
) -> (r: Vec<FeedItem>)
    ensures
        r@.len() == local_posts@.len() + inbox_posts@.len(),
        forall|i: int|
            0 <= i < local_posts@.len() ==> own_item(
                #[trigger] local_posts@[i],
                signing_pubkey@,
                display_name@,
                r@[i],
            ),
        forall|i: int|
            0 <= i < inbox_posts@.len() ==> friend_item(
                #[trigger] inbox_posts@[i],
                contacts@,
                r@[local_posts@.len() + i],
            ),
{
    let mut items: Vec<FeedItem> = Vec::new();
    let mut i: usize = 0;
    while i < local_posts.len()
        invariant
            i <= local_posts@.len(),
            items@.len() == i,
            forall|k: int|
                0 <= k < i ==> own_item(
                    #[trigger] local_posts@[k],
                    signing_pubkey@,
                    display_name@,
                    items@[k],
                ),
        decreases local_posts@.len() - i,
    {
        let p = &local_posts[i];
        items.push(
            FeedItem {
                content_id: p.content_id.clone(),
                author_id: owned(signing_pubkey),
                author_name: owned(display_name),
                body: p.body.clone(),
                media_ref: copy_opt(&p.media_ref),
                created_at: p.created_at,
                expires_at: p.expires_at,
                is_own: true,
                is_archived: false,
                comment_count: 0,
            },
        );
        i = i + 1;
    }
    let n = items.len();
    let mut k: usize = 0;
    while k < inbox_posts.len()
        invariant
            n == local_posts@.len(),
            k <= inbox_posts@.len(),
            items@.len() == n + k,
            forall|j: int|
                0 <= j < n ==> own_item(
                    #[trigger] local_posts@[j],
                    signing_pubkey@,
                    display_name@,
                    items@[j],
                ),
            forall|j: int|
                0 <= j < k ==> friend_item(#[trigger] inbox_posts@[j], contacts@, items@[n + j]),
        decreases inbox_posts@.len() - k,
    {
        let e = &inbox_posts[k];
        let name = author_name(contacts, e.sender_id.as_str());
        items.push(
            FeedItem {
                content_id: e.content_id.clone(),
                author_id: e.sender_id.clone(),
                author_name: name,
                body: e.body.clone(),
                media_ref: copy_opt(&e.media_ref),
                created_at: e.received_at,
                expires_at: e.expires_at,
                is_own: false,
                is_archived: false,
                comment_count: 0,
            },
        );
        k = k + 1;
    }
    items
}

/// `x` placed after every entry of the newest-first `s` that is not older
/// than it.
pub open spec fn insert_newest_first(s: Seq<FeedItem>, x: FeedItem) -> Seq<FeedItem>
    decreases s.len(),
{
    if s.len() == 0 {
        seq![x]
    } else if later(x.created_at, s.last().created_at) {
        insert_newest_first(s.drop_last(), x).push(s.last())
    } else {
        s.push(x)
    }
}

/// The items newest first; items of the same time keep their order.
pub open spec fn newest_first(s: Seq<FeedItem>) -> Seq<FeedItem>
    decreases s.len(),
{
    if s.len() == 0 {
        Seq::<FeedItem>::empty()
    } else {
        insert_newest_first(newest_first(s.drop_last()), s.last())
    }
}

/// Whether some item of `items` has content id `id`.
pub open spec fn has_content(items: Seq<FeedItem>, id: Seq<char>) -> bool {
    exists|k: int| 0 <= k < items.len() && (#[trigger] items[k]).content_id@ == id
}

/// The ephemeral items whose content is not archived, in order.
pub open spec fn not_archived(ephemeral: Seq<FeedItem>, archived: Seq<FeedItem>) -> Seq<FeedItem> {
    ephemeral.filter(|it: FeedItem| !has_content(archived, it.content_id@))
}

/// The feed before sorting: the archive plus the items it lacks when feed
/// history is on, else the ephemeral items.
pub open spec fn feed_items(archived: Seq<FeedItem>, ephemeral: Seq<FeedItem>, history: bool) -> Seq<
    FeedItem,
> {
    if history {
        archived + not_archived(ephemeral, archived)
    } else {
        ephemeral
    }
}

fn archived_has(archived: &Vec<FeedItem>, id: &String) -> (b: bool)
    ensures
        b == has_content(archived@, id@),
{
    let mut i: usize = 0;
    while i < archived.len()
        invariant
            i <= archived@.len(),
            forall|k: int| 0 <= k < i ==> (#[trigger] archived@[k]).content_id@ != id@,
        decreases archived@.len() - i,
    {
        if str_eq(archived[i].content_id.as_str(), id.as_str()) {
            return true;
        }
        i = i + 1;
    }
    false
}

fn insert_item(sorted: &mut Vec<FeedItem>, x: FeedItem)
    ensures
        final(sorted)@ == insert_newest_first(old(sorted)@, x),
{
    let ghost s = sorted@;
    let mut j: usize = sorted.len();
    assert(s.take(s.len() as int) =~= s);
    assert(insert_newest_first(s, x) + s.skip(s.len() as int) =~= insert_newest_first(s, x));
    while j > 0 && is_after(x.created_at, sorted[j - 1].created_at)
        invariant
            sorted@ == s,
            j <= s.len(),
            insert_newest_first(s, x) == insert_newest_first(s.take(j as int), x) + s.skip(
                j as int,
            ),
        decreases j,
    {
        proof {
            assert(s.take(j as int).drop_last() =~= s.take(j - 1));
            assert(s.take(j as int).last() == s[j - 1]);
            assert(insert_newest_first(s.take(j - 1), x).push(s[j - 1]) + s.skip(j as int)
                =~= insert_newest_first(s.take(j - 1), x) + s.skip(j - 1));
        }
        j = j - 1;
    }
    proof {
        if j == 0 {
            assert(s.take(0) =~= Seq::<FeedItem>::empty());
        } else {
            assert(s.take(j as int).last() == s[j - 1]);
        }
        assert(insert_newest_first(s.take(j as int), x) + s.skip(j as int) =~= s.insert(
            j as int,
            x,
        ));
    }
    sorted.insert(j, x);
}

/// The feed, newest first: with feed history on, the archive and the
/// ephemeral items it does not hold; otherwise the ephemeral items.
pub fn merge_feed(archived: Vec<FeedItem>, ephemeral: Vec<FeedItem>, history_enabled: bool) -> (r:
    Vec<FeedItem>)
    ensures
        r@ == newest_first(feed_items(archived@, ephemeral@, history_enabled)),
{
    let mut items: Vec<FeedItem> = Vec::new();
    let ghost all = feed_items(archived@, ephemeral@, history_enabled);
    if history_enabled {
        let mut extra: Vec<FeedItem> = Vec::new();
        let mut i: usize = 0;
        while i < ephemeral.len()
            invariant
                i <= ephemeral@.len(),
                extra@ == not_archived(ephemeral@.take(i as int), archived@),
            decreases ephemeral@.len() - i,
        {
            let it = &ephemeral[i];
            proof {
                assert(ephemeral@.take(i + 1) =~= ephemeral@.take(i as int).push(*it));
                ephemeral@.take(i as int).lemma_filter_push(
                    *it,
                    |it: FeedItem| !has_content(archived@, it.content_id@),
                );
            }
            if !archived_has(&archived, &it.content_id) {
                extra.push(copy_item(it));
            }
            i = i + 1;
        }
        proof {
            assert(ephemeral@.take(ephemeral@.len() as int) =~= ephemeral@);
        }
        let mut n: usize = 0;
        while n < archived.len()
            invariant
                n <= archived@.len(),
                items@ == newest_first(archived@.take(n as int)),
            decreases archived@.len() - n,
        {
            proof {
                assert(archived@.take(n + 1).drop_last() =~= archived@.take(n as int));
            }
            insert_item(&mut items, copy_item(&archived[n]));
            n = n + 1;
        }
        let ghost base = archived@;
        proof {
            assert(archived@.take(archived@.len() as int) =~= archived@);
            assert(base + extra@.take(0) =~= base);
        }
        let mut m: usize = 0;
        while m < extra.len()
            invariant
                m <= extra@.len(),
                base == archived@,
                extra@ == not_archived(ephemeral@, archived@),
                items@ == newest_first(base + extra@.take(m as int)),
            decreases extra@.len() - m,
        {
            proof {
                assert((base + extra@.take(m + 1)).drop_last() =~= base + extra@.take(m as int));
                assert((base + extra@.take(m + 1)).last() == extra@[m as int]);
            }
            insert_item(&mut items, copy_item(&extra[m]));
            m = m + 1;
        }
        proof {
            assert(archived@.take(archived@.len() as int) =~= archived@);
            assert(base + extra@.take(extra@.len() as int) =~= all);
        }
    } else {
        let mut n: usize = 0;
        while n < ephemeral.len()
            invariant
                n <= ephemeral@.len(),
                items@ == newest_first(ephemeral@.take(n as int)),
            decreases ephemeral@.len() - n,
        {
            proof {
                assert(ephemeral@.take(n + 1).drop_last() =~= ephemeral@.take(n as int));
            }
            insert_item(&mut items, copy_item(&ephemeral[n]));
            n = n + 1;
        }
        proof {
            assert(ephemeral@.take(ephemeral@.len() as int) =~= ephemeral@);
        }
    }
    items
}

fn copy_item(it: &FeedItem) -> (r: FeedItem)
    ensures
        r == *it,
{
    FeedItem {
        content_id: it.content_id.clone(),
        author_id: it.author_id.clone(),
        author_name: it.author_name.clone(),
        body: it.body.clone(),
        media_ref: copy_opt(&it.media_ref),
        created_at: it.created_at,
        expires_at: it.expires_at,
        is_own: it.is_own,
        is_archived: it.is_archived,
        comment_count: it.comment_count,
    }
}

/// The body of a new comment, trimmed; an error when it is blank or the
/// identity has no name yet.
pub fn comment_body(body: &str, display_name: &str) -> (r: Result<String, CoreError>)
    ensures
        trim_seq(body@).len() == 0 ==> (r matches Err(CoreError::Invite(m)) && m@
            == "comment cannot be empty"@),
        trim_seq(body@).len() > 0 && display_name@.len() == 0 ==> r matches Err(
            CoreError::IdentityNotInitialized,
        ),
        trim_seq(body@).len() > 0 && display_name@.len() > 0 ==> (r matches Ok(b) && b@
            == trim_seq(body@)),
{
    let t = trim(body);
    if t.as_str().is_empty() {
        return Err(CoreError::Invite(owned("comment cannot be empty")));
    }
    if display_name.is_empty() {
        return Err(CoreError::IdentityNotInitialized);
    }
    Ok(t)
}

/// Each item is no older than the ones after it.
pub open spec fn newest_ordered(s: Seq<FeedItem>) -> bool {
    forall|i: int, j: int| 0 <= i < j < s.len() ==> !later(s[j].created_at, s[i].created_at)
}

proof fn lemma_insert_newest_first(s: Seq<FeedItem>, x: FeedItem)
    requires
        newest_ordered(s),
    ensures
        newest_ordered(insert_newest_first(s, x)),
        insert_newest_first(s, x).to_multiset() == s.to_multiset().insert(x),
    decreases s.len(),
{
    broadcast use vstd::seq_lib::group_to_multiset_ensures;

    if s.len() == 0 {
        assert(insert_newest_first(s, x) =~= Seq::<FeedItem>::empty().push(x));
    } else if later(x.created_at, s.last().created_at) {
        let d = s.drop_last();
        assert(newest_ordered(d));
        lemma_insert_newest_first(d, x);
        let r = insert_newest_first(d, x);
        assert forall|k: int| 0 <= k < r.len() implies !later(
            s.last().created_at,
            #[trigger] r[k].created_at,
        ) by {
            assert(r.to_multiset().count(r[k]) > 0);
            assert(d.to_multiset().insert(x).count(r[k]) > 0);
            if r[k] != x {
                assert(d.to_multiset().count(r[k]) > 0);
                assert(d.contains(r[k]));
                let m = choose|m: int| 0 <= m < d.len() && d[m] == r[k];
                assert(s[m] == d[m]);
                assert(!later(s[s.len() - 1].created_at, s[m].created_at));
            }
        }
        assert(s =~= d.push(s.last()));
    } else {
        assert forall|i: int, j: int| 0 <= i < j < s.push(x).len() implies !later(
            s.push(x)[j].created_at,
            s.push(x)[i].created_at,
        ) by {
            if j == s.len() {
                assert(!later(s[s.len() - 1].created_at, s[i].created_at) || i == s.len() - 1);
            }
        }
    }
}

proof fn lemma_newest_first(s: Seq<FeedItem>)
    ensures
        newest_ordered(newest_first(s)),
        newest_first(s).to_multiset() == s.to_multiset(),
    decreases s.len(),
{
    broadcast use vstd::seq_lib::group_to_multiset_ensures;

    if s.len() > 0 {
        lemma_newest_first(s.drop_last());
        lemma_insert_newest_first(newest_first(s.drop_last()), s.last());
        assert(s =~= s.drop_last().push(s.last()));
    }
}

/// The merged feed holds each of its items exactly once, newest first; with
/// history on, no ephemeral item repeats an archived one.
pub proof fn feed_is_newest_first(archived: Seq<FeedItem>, ephemeral: Seq<FeedItem>, history: bool)
    ensures
        newest_ordered(newest_first(feed_items(archived, ephemeral, history))),
        newest_first(feed_items(archived, ephemeral, history)).to_multiset() == feed_items(
            archived,
            ephemeral,
            history,
        ).to_multiset(),
        history ==> forall|k: int|
            0 <= k < not_archived(ephemeral, archived).len() ==> !has_content(
                archived,
                (#[trigger] not_archived(ephemeral, archived)[k]).content_id@,
            ),
{
    lemma_newest_first(feed_items(archived, ephemeral, history));
    if history {
        let f = not_archived(ephemeral, archived);
        assert forall|k: int| 0 <= k < f.len() implies !has_content(
            archived,
            (#[trigger] f[k]).content_id@,
        ) by {
            ephemeral.lemma_filter_pred(|it: FeedItem| !has_content(archived, it.content_id@), k);
        }
    }
}

} // verus!
