//! What holds of every page folded into the store.

use crate::model;
use crate::model::{ChatView, MessageView, StoreView};
use crate::pages;
use crate::pages::{CHAT_WINDOW, DIALOG_LIMIT};
use crate::proto;
use crate::proto::{DialogView, PageView, Peer};
use vstd::prelude::*;

verus! {

// ---- dialogs --------------------------------------------------------------------------------------

/// Whether no peer has two rows.
pub open spec fn distinct_peers(chats: Seq<ChatView>) -> bool {
    forall|i: int, j: int|
        0 <= i < j < chats.len() ==> !(#[trigger] chats[i].peer matches Some(p)
            && #[trigger] chats[j].peer matches Some(q) && p.kind == q.kind && p.id == q.id)
}

/// A list without a repeated peer stays one, whatever a page holds: the same person never appears
/// twice.
pub proof fn a_page_never_lists_a_peer_twice(s: StoreView, page: PageView, offset: int)
    requires
        distinct_peers(s.chats),
    ensures
        distinct_peers(pages::after_dialogs(s, page, offset).chats),
{
    lemma_extended_distinct(s.chats, page.dialogs, page.names, offset);
}

proof fn lemma_extended_distinct(
    chats: Seq<ChatView>,
    d: Seq<DialogView>,
    names: Seq<(Peer, Seq<char>)>,
    offset: int,
)
    requires
        distinct_peers(chats),
    ensures
        distinct_peers(pages::extended(chats, d, names, offset)),
    decreases d.len(),
{
    if d.len() == 0 || chats.len() >= DIALOG_LIMIT {
    } else if pages::listed(chats, d[0].peer) {
        lemma_extended_distinct(chats, d.skip(1), names, offset);
    } else {
        let more = chats.push(pages::row_of(d[0], names, offset));
        assert forall|i: int, j: int| 0 <= i < j < more.len() implies !(
        #[trigger] more[i].peer matches Some(p) && #[trigger] more[j].peer matches Some(q) && p.kind
            == q.kind && p.id == q.id) by {
            assert(more[i].peer == chats[i].peer);
            if j < chats.len() {
                assert(more[j].peer == chats[j].peer);
            }
        }
        lemma_extended_distinct(more, d.skip(1), names, offset);
    }
}

/// A page only ever appends, and the list never grows past its limit.
pub proof fn a_page_appends_up_to_the_limit(s: StoreView, page: PageView, offset: int)
    ensures
        s.chats.len() <= pages::after_dialogs(s, page, offset).chats.len(),
        pages::after_dialogs(s, page, offset).chats.take(s.chats.len() as int) == s.chats,
        pages::after_dialogs(s, page, offset).chats.len() <= DIALOG_LIMIT || pages::after_dialogs(
            s,
            page,
            offset,
        ).chats == s.chats,
{
    lemma_extended_appends(s.chats, page.dialogs, page.names, offset);
}

pub(crate) proof fn lemma_extended_appends(
    chats: Seq<ChatView>,
    d: Seq<DialogView>,
    names: Seq<(Peer, Seq<char>)>,
    offset: int,
)
    ensures
        chats.len() <= pages::extended(chats, d, names, offset).len(),
        pages::extended(chats, d, names, offset).take(chats.len() as int) == chats,
        chats.len() <= DIALOG_LIMIT ==> pages::extended(chats, d, names, offset).len() <= DIALOG_LIMIT,
        chats.len() >= DIALOG_LIMIT ==> pages::extended(chats, d, names, offset) == chats,
    decreases d.len(),
{
    let e = pages::extended(chats, d, names, offset);
    if d.len() == 0 || chats.len() >= DIALOG_LIMIT {
        assert(e.take(chats.len() as int) =~= chats);
    } else if pages::listed(chats, d[0].peer) {
        lemma_extended_appends(chats, d.skip(1), names, offset);
    } else {
        let more = chats.push(pages::row_of(d[0], names, offset));
        lemma_extended_appends(more, d.skip(1), names, offset);
        assert(e.take(chats.len() as int) =~= e.take(more.len() as int).take(chats.len() as int));
        assert(more.take(chats.len() as int) =~= chats);
    }
}

/// Whether every dialog of a page is listed.
pub open spec fn all_listed(chats: Seq<ChatView>, d: Seq<DialogView>) -> bool {
    forall|i: int| 0 <= i < d.len() ==> pages::listed(chats, (#[trigger] d[i]).peer)
}

/// A page of dialogs that are all listed adds nothing and ends the list, however long it is.
pub proof fn a_page_of_known_dialogs_ends_the_list(s: StoreView, page: PageView, offset: int)
    requires
        all_listed(s.chats, page.dialogs),
    ensures
        pages::after_dialogs(s, page, offset).chats == s.chats,
        pages::after_dialogs(s, page, offset).dialogs_complete,
        !pages::after_dialogs(s, page, offset).dialogs_loading,
{
    lemma_known_adds_nothing(s.chats, page.dialogs, page.names, offset);
}

proof fn lemma_known_adds_nothing(
    chats: Seq<ChatView>,
    d: Seq<DialogView>,
    names: Seq<(Peer, Seq<char>)>,
    offset: int,
)
    requires
        chats.len() >= DIALOG_LIMIT || all_listed(chats, d),
    ensures
        pages::extended(chats, d, names, offset) == chats,
    decreases d.len(),
{
    if d.len() > 0 && chats.len() < DIALOG_LIMIT {
        assert(pages::listed(chats, d[0].peer));
        assert forall|i: int| 0 <= i < d.skip(1).len() implies pages::listed(
            chats,
            (#[trigger] d.skip(1)[i]).peer,
        ) by {
            assert(d.skip(1)[i] == d[i + 1]);
        }
        lemma_known_adds_nothing(chats, d.skip(1), names, offset);
    }
}

/// The same page arriving again adds nothing the second time, and ends the list: it does not matter
/// that the server read the offset as "from the beginning".
pub proof fn the_same_page_twice_adds_nothing(
    s: StoreView,
    page: PageView,
    offset: int,
    later_offset: int,
)
    ensures
        ({
            let once = pages::after_dialogs(s, page, offset);
            let twice = pages::after_dialogs(once, page, later_offset);
            twice.chats == once.chats && twice.dialogs_complete && !twice.dialogs_loading
        }),
{
    lemma_extended_lists(s.chats, page.dialogs, page.names, offset);
    let once = pages::after_dialogs(s, page, offset);
    lemma_known_adds_nothing(once.chats, page.dialogs, page.names, later_offset);
}

pub(crate) proof fn lemma_extended_lists(
    chats: Seq<ChatView>,
    d: Seq<DialogView>,
    names: Seq<(Peer, Seq<char>)>,
    offset: int,
)
    ensures
        pages::extended(chats, d, names, offset).len() >= DIALOG_LIMIT || all_listed(
            pages::extended(chats, d, names, offset),
            d,
        ),
    decreases d.len(),
{
    let e = pages::extended(chats, d, names, offset);
    if d.len() == 0 || chats.len() >= DIALOG_LIMIT {
    } else {
        let more = if pages::listed(chats, d[0].peer) {
            chats
        } else {
            chats.push(pages::row_of(d[0], names, offset))
        };
        if !pages::listed(chats, d[0].peer) {
            assert(more[chats.len() as int].peer == pages::row_of(d[0], names, offset).peer);
        }
        lemma_extended_lists(more, d.skip(1), names, offset);
        lemma_extended_appends(more, d.skip(1), names, offset);
        if e.len() < DIALOG_LIMIT {
            let k = choose|k: int|
                0 <= k < more.len() && (#[trigger] more[k].peer matches Some(p) && p.kind
                    == d[0].peer.kind && p.id == d[0].peer.id);
            assert(e.take(more.len() as int)[k] == more[k]);
            assert(e[k].peer == more[k].peer);
            assert forall|i: int| 0 <= i < d.len() implies pages::listed(e, (#[trigger] d[i]).peer) by {
                if i > 0 {
                    assert(d.skip(1)[i - 1] == d[i]);
                }
            }
        }
    }
}

/// A first page with no peer in it twice gives the list that it gives as a further page of an empty
/// one, and the next page is asked for from the same place.
pub proof fn a_first_page_is_a_page_of_an_empty_list(page: PageView, offset: int)
    requires
        forall|i: int, j: int|
            0 <= i < j < page.dialogs.len() ==> (#[trigger] page.dialogs[i]).peer != (
            #[trigger] page.dialogs[j]).peer,
    ensures
        ({
            let first = pages::first_store(page, offset);
            let further = pages::after_dialogs(model::empty_store(), page, offset);
            &&& first.chats == further.chats
            &&& first.dialog_offset_date == further.dialog_offset_date
            &&& first.dialog_offset_id == further.dialog_offset_id
            &&& first.dialog_offset_peer == further.dialog_offset_peer
        }),
{
    let d = page.dialogs;
    let n = if d.len() < DIALOG_LIMIT {
        d.len() as int
    } else {
        DIALOG_LIMIT as int
    };
    let none = model::empty_store().chats;
    let short = d.take(n);
    assert forall|i: int, j: int| 0 <= i < j < short.len() implies (#[trigger] short[i]).peer != (
    #[trigger] short[j]).peer by {
        assert(short[i] == d[i] && short[j] == d[j]);
    }
    lemma_new_appended(none, short, page.names, offset);
    lemma_no_more_than_fit(none, d, page.names, offset, n);
    assert(none + pages::rows_of(short, page.names, offset) =~= pages::rows_of(
        d,
        page.names,
        offset,
    ).take(n));
}

/// Dialogs past those that fill the list change nothing.
proof fn lemma_no_more_than_fit(
    chats: Seq<ChatView>,
    d: Seq<DialogView>,
    names: Seq<(Peer, Seq<char>)>,
    offset: int,
    n: int,
)
    requires
        0 <= n <= d.len(),
        n == d.len() || pages::extended(chats, d.take(n), names, offset).len() >= DIALOG_LIMIT,
    ensures
        pages::extended(chats, d, names, offset) == pages::extended(
            chats,
            d.take(n),
            names,
            offset,
        ),
    decreases d.len(),
{
    if n == d.len() {
        assert(d.take(n) =~= d);
    } else if d.len() > 0 && chats.len() < DIALOG_LIMIT && n > 0 {
        let short = d.take(n);
        assert(short.skip(1) =~= d.skip(1).take(n - 1));
        assert(short[0] == d[0]);
        if pages::listed(chats, d[0].peer) {
            lemma_no_more_than_fit(chats, d.skip(1), names, offset, n - 1);
        } else {
            lemma_no_more_than_fit(
                chats.push(pages::row_of(d[0], names, offset)),
                d.skip(1),
                names,
                offset,
                n - 1,
            );
        }
    }
}

/// A page of dialogs none of which is listed or repeated, and for which there is room, is appended
/// whole and in order.
pub proof fn a_page_of_new_dialogs_is_appended_whole(s: StoreView, page: PageView, offset: int)
    requires
        s.chats.len() + page.dialogs.len() <= DIALOG_LIMIT,
        forall|i: int|
            0 <= i < page.dialogs.len() ==> !pages::listed(s.chats, (#[trigger] page.dialogs[i]).peer),
        forall|i: int, j: int|
            0 <= i < j < page.dialogs.len() ==> (#[trigger] page.dialogs[i]).peer != (
            #[trigger] page.dialogs[j]).peer,
    ensures
        pages::after_dialogs(s, page, offset).chats == s.chats + pages::rows_of(
            page.dialogs,
            page.names,
            offset,
        ),
{
    lemma_new_appended(s.chats, page.dialogs, page.names, offset);
}

proof fn lemma_new_appended(
    chats: Seq<ChatView>,
    d: Seq<DialogView>,
    names: Seq<(Peer, Seq<char>)>,
    offset: int,
)
    requires
        chats.len() + d.len() <= DIALOG_LIMIT,
        forall|i: int| 0 <= i < d.len() ==> !pages::listed(chats, (#[trigger] d[i]).peer),
        forall|i: int, j: int|
            0 <= i < j < d.len() ==> (#[trigger] d[i]).peer != (#[trigger] d[j]).peer,
    ensures
        pages::extended(chats, d, names, offset) == chats + pages::rows_of(d, names, offset),
    decreases d.len(),
{
    if d.len() == 0 {
        assert(chats + pages::rows_of(d, names, offset) =~= chats);
    } else {
        let row = pages::row_of(d[0], names, offset);
        let more = chats.push(row);
        let rest = d.skip(1);
        assert forall|i: int| 0 <= i < rest.len() implies !pages::listed(more, (#[trigger] rest[i]).peer) by {
            assert(rest[i] == d[i + 1]);
            assert(d[0].peer != d[i + 1].peer);
            if pages::listed(more, rest[i].peer) {
                let k = choose|k: int|
                    0 <= k < more.len() && (#[trigger] more[k].peer matches Some(p) && p.kind
                        == rest[i].peer.kind && p.id == rest[i].peer.id);
                if k < chats.len() {
                    assert(chats[k].peer == more[k].peer);
                    assert(pages::listed(chats, d[i + 1].peer));
                }
            }
        }
        assert forall|i: int, j: int| 0 <= i < j < rest.len() implies (#[trigger] rest[i]).peer != (
        #[trigger] rest[j]).peer by {
            assert(rest[i] == d[i + 1] && rest[j] == d[j + 1]);
        }
        lemma_new_appended(more, rest, names, offset);
        assert(more + pages::rows_of(rest, names, offset) =~= chats + pages::rows_of(d, names, offset));
    }
}

// ---- history --------------------------------------------------------------------------------------

/// Whether messages read downwards in time, each server id once. Messages the server has not
/// answered stand wherever they were put.
pub open spec fn in_order(s: Seq<MessageView>) -> bool {
    forall|i: int, j: int|
        0 <= i < j < s.len() && (#[trigger] s[i]).id != 0 && (#[trigger] s[j]).id != 0 ==> s[i].id
            < s[j].id
}

/// Whether each server id stands among some messages once at most.
pub open spec fn each_once(s: Seq<MessageView>) -> bool {
    forall|i: int, j: int|
        0 <= i < j < s.len() && (#[trigger] s[i]).id != 0 ==> s[i].id != (#[trigger] s[j]).id
}

/// Whether the messages a page holds of a peer come newest first, as the server sends them. One may
/// stand there more than once.
pub open spec fn newest_first(page: Seq<proto::MessageView>, peer: i64) -> bool {
    forall|i: int, j: int|
        0 <= i < j < page.len() && (#[trigger] page[i]).peer.id == peer && (
        #[trigger] page[j]).peer.id == peer ==> page[i].id >= page[j].id
}

pub(crate) proof fn lemma_lowest(s: Seq<MessageView>)
    ensures
        (match pages::lowest(s) {
            Some(lo) => lo != 0 && (exists|i: int| 0 <= i < s.len() && (#[trigger] s[i]).id == lo)
                && forall|i: int|
                0 <= i < s.len() && (#[trigger] s[i]).id != 0 ==> lo <= s[i].id,
            None => forall|i: int| 0 <= i < s.len() ==> (#[trigger] s[i]).id == 0,
        }),
        pages::lowest(s) is Some == pages::highest(s) is Some,
        pages::lowest(s) is Some ==> pages::lowest(s)->0 <= pages::highest(s)->0,
        (match pages::highest(s) {
            Some(hi) => hi != 0 && (exists|i: int| 0 <= i < s.len() && (#[trigger] s[i]).id == hi)
                && forall|i: int|
                0 <= i < s.len() && (#[trigger] s[i]).id != 0 ==> s[i].id <= hi,
            None => true,
        }),
    decreases s.len(),
{
    if s.len() > 0 {
        let front = s.drop_last();
        lemma_lowest(front);
        assert forall|i: int| 0 <= i < s.len() - 1 implies #[trigger] s[i] == front[i] by {}
        assert(s[s.len() - 1] == s.last());
        if let Some(lo) = pages::lowest(front) {
            let i = choose|i: int| 0 <= i < front.len() && (#[trigger] front[i]).id == lo;
            assert(s[i].id == lo);
        }
        if let Some(hi) = pages::highest(front) {
            let i = choose|i: int| 0 <= i < front.len() && (#[trigger] front[i]).id == hi;
            assert(s[i].id == hi);
        }
    }
}

/// Every bubble taken from a page is one of its messages and passed the test, and every message of
/// the peer that passes it is taken, once; taken newest first, they come out oldest first.
proof fn lemma_bubbles(
    page: Seq<proto::MessageView>,
    peer: i64,
    keep: spec_fn(i32) -> bool,
    offset: int,
)
    ensures
        forall|k: int|
            0 <= k < pages::bubbles_where(page, peer, keep, offset).len() ==> keep(
                (#[trigger] pages::bubbles_where(page, peer, keep, offset)[k]).id,
            ) && exists|j: int|
                0 <= j < page.len() && (#[trigger] page[j]).peer.id == peer && page[j].id
                    == pages::bubbles_where(page, peer, keep, offset)[k].id,
        each_once(pages::bubbles_where(page, peer, keep, offset)),
        newest_first(page, peer) ==> in_order(pages::bubbles_where(page, peer, keep, offset)),
    decreases page.len(),
{
    let r = pages::bubbles_where(page, peer, keep, offset);
    if page.len() > 0 {
        let front = page.drop_last();
        let m = page.last();
        let rest = pages::bubbles_where(front, peer, keep, offset);
        lemma_bubbles(front, peer, keep, offset);
        if newest_first(page, peer) {
            assert forall|i: int, j: int|
                0 <= i < j < front.len() && (#[trigger] front[i]).peer.id == peer && (
                #[trigger] front[j]).peer.id == peer implies front[i].id >= front[j].id by {
                assert(front[i] == page[i] && front[j] == page[j]);
            }
        }
        assert forall|k: int| 0 <= k < rest.len() implies exists|j: int|
            0 <= j < page.len() - 1 && (#[trigger] page[j]).peer.id == peer && page[j].id
                == #[trigger] rest[k].id by {
            let j = choose|j: int|
                0 <= j < front.len() && (#[trigger] front[j]).peer.id == peer && front[j].id
                    == rest[k].id;
            assert(page[j] == front[j]);
        }
        if m.peer.id == peer && keep(m.id) && !pages::stands_in(front, peer, m.id) {
            assert forall|k: int| 0 <= k < rest.len() && rest[k].id != 0 implies #[trigger] rest[k].id
                != m.id by {
                let j = choose|j: int|
                    0 <= j < page.len() - 1 && (#[trigger] page[j]).peer.id == peer && page[j].id
                        == rest[k].id;
                assert(front[j] == page[j]);
            }
            assert forall|k: int| 0 <= k < r.len() implies keep((#[trigger] r[k]).id) && exists|
                j: int,
            |
                0 <= j < page.len() && (#[trigger] page[j]).peer.id == peer && page[j].id
                    == r[k].id by {
                if k == 0 {
                    assert(page[page.len() - 1].peer.id == peer);
                } else {
                    assert(r[k] == rest[k - 1]);
                }
            }
            assert forall|a: int, b: int| 0 <= a < b < r.len() && (#[trigger] r[a]).id
                != 0 implies r[a].id != (#[trigger] r[b]).id by {
                assert(r[b] == rest[b - 1]);
                if a > 0 {
                    assert(r[a] == rest[a - 1]);
                }
            }
            if newest_first(page, peer) {
                assert forall|a: int, b: int|
                    0 <= a < b < r.len() && (#[trigger] r[a]).id != 0 && (#[trigger] r[b]).id
                        != 0 implies r[a].id < r[b].id by {
                    assert(r[b] == rest[b - 1]);
                    if a == 0 {
                        let j = choose|j: int|
                            0 <= j < page.len() - 1 && (#[trigger] page[j]).peer.id == peer
                                && page[j].id == rest[b - 1].id;
                        assert(page[page.len() - 1] == m);
                    } else {
                        assert(r[a] == rest[a - 1]);
                    }
                }
            }
        } else {
            assert(r == rest);
        }
    }
}

/// Every message of the peer that passes the test and has a server id is among the bubbles.
pub(crate) proof fn lemma_none_left_out(
    page: Seq<proto::MessageView>,
    peer: i64,
    keep: spec_fn(i32) -> bool,
    offset: int,
    j: int,
)
    requires
        0 <= j < page.len(),
        page[j].peer.id == peer,
        page[j].id != 0,
        keep(page[j].id),
    ensures
        pages::holds(pages::bubbles_where(page, peer, keep, offset), page[j].id),
    decreases page.len(),
{
    let r = pages::bubbles_where(page, peer, keep, offset);
    let front = page.drop_last();
    let m = page.last();
    let rest = pages::bubbles_where(front, peer, keep, offset);
    let id = page[j].id;
    let i = if j < page.len() - 1 {
        j
    } else if pages::stands_in(front, peer, m.id) {
        choose|i: int|
            0 <= i < front.len() && (#[trigger] front[i]).peer.id == peer && front[i].id == m.id
    } else {
        j
    };
    if i < page.len() - 1 {
        assert(front[i] == page[i]);
        lemma_none_left_out(front, peer, keep, offset, i);
        let k = choose|k: int| 0 <= k < rest.len() && (#[trigger] rest[k]).id == id;
        if m.peer.id == peer && keep(m.id) && !pages::stands_in(front, peer, m.id) {
            assert(r[k + 1] == rest[k]);
        } else {
            assert(r[k] == rest[k]);
        }
    } else {
        assert(r[0].id == id);
    }
}

/// What a page is folded into, before the window is held, in its three parts.
proof fn lemma_parts(c: ChatView, page: Seq<proto::MessageView>, peer: i64, offset: int)
    ensures
        ({
            let held = c.messages;
            let above = pages::added_above(held, page, peer, offset);
            let below = pages::added_below(held, page, peer, offset);
            let all = pages::with_history(c, page, peer, offset).messages;
            &&& all == above + held + below
            &&& each_once(above)
            &&& each_once(below)
            &&& forall|k: int|
                0 <= k < above.len() ==> pages::goes_above(held, (#[trigger] above[k]).id)
            &&& forall|k: int|
                0 <= k < below.len() ==> pages::goes_below(held, (#[trigger] below[k]).id)
            &&& newest_first(page, peer) ==> in_order(above) && in_order(below)
        }),
{
    let held = c.messages;
    let up = |id: i32| pages::goes_above(held, id);
    let down = |id: i32| pages::goes_below(held, id);
    lemma_bubbles(page, peer, up, offset);
    lemma_bubbles(page, peer, down, offset);
    let a = pages::bubbles_where(page, peer, up, offset);
    let b = pages::bubbles_where(page, peer, down, offset);
    assert forall|k: int| 0 <= k < a.len() implies pages::goes_above(held, (#[trigger] a[k]).id) by {
        assert(up(a[k].id));
    }
    assert forall|k: int| 0 <= k < b.len() implies pages::goes_below(held, (#[trigger] b[k]).id) by {
        assert(down(b[k].id));
    }
}

/// The window is a part of what it is held over, from some message on to the last.
proof fn lemma_window(c: ChatView)
    ensures
        pages::trimmed(c).messages == c.messages.skip(pages::overflow(c)),
        in_order(c.messages) ==> in_order(pages::trimmed(c).messages),
        each_once(c.messages) ==> each_once(pages::trimmed(c).messages),
{
    let t = pages::trimmed(c).messages;
    let n = pages::overflow(c);
    assert(c.messages.skip(0) =~= c.messages);
    assert forall|i: int| 0 <= i < t.len() implies #[trigger] t[i] == c.messages[i + n] by {}
}

/// Before the window is held, what a page was folded into is in order.
proof fn lemma_all_in_order(c: ChatView, page: Seq<proto::MessageView>, peer: i64, offset: int)
    requires
        in_order(c.messages),
        newest_first(page, peer),
    ensures
        in_order(pages::with_history(c, page, peer, offset).messages),
{
    let held = c.messages;
    let above = pages::added_above(held, page, peer, offset);
    let below = pages::added_below(held, page, peer, offset);
    let all = pages::with_history(c, page, peer, offset).messages;
    lemma_lowest(held);
    lemma_parts(c, page, peer, offset);
    assert forall|i: int, j: int|
        0 <= i < j < all.len() && (#[trigger] all[i]).id != 0 && (#[trigger] all[j]).id
            != 0 implies all[i].id < all[j].id by {
        let a = above.len() as int;
        let h = a + held.len();
        if i < a {
            assert(all[i] == above[i]);
        } else if i < h {
            assert(all[i] == held[i - a]);
        } else {
            assert(all[i] == below[i - h]);
        }
        if j < a {
            assert(all[j] == above[j]);
        } else if j < h {
            assert(all[j] == held[j - a]);
        } else {
            assert(all[j] == below[j - h]);
        }
    }
}

/// A page never puts a message out of order.
pub proof fn history_stays_in_order(
    c: ChatView,
    page: Seq<proto::MessageView>,
    peer: i64,
    offset: int,
)
    requires
        in_order(c.messages),
        newest_first(page, peer),
    ensures
        in_order(pages::after_history(c, page, peer, offset).messages),
{
    lemma_all_in_order(c, page, peer, offset);
    lemma_window(pages::with_history(c, page, peer, offset));
}

/// A page never brings a second copy of a message, whatever it holds and in whatever order: what
/// stood once stands once after it.
pub proof fn history_repeats_nothing(
    c: ChatView,
    page: Seq<proto::MessageView>,
    peer: i64,
    offset: int,
)
    requires
        each_once(c.messages),
    ensures
        each_once(pages::after_history(c, page, peer, offset).messages),
{
    let held = c.messages;
    let above = pages::added_above(held, page, peer, offset);
    let below = pages::added_below(held, page, peer, offset);
    let all = pages::with_history(c, page, peer, offset).messages;
    lemma_lowest(held);
    lemma_parts(c, page, peer, offset);
    assert forall|i: int, j: int| 0 <= i < j < all.len() && (#[trigger] all[i]).id != 0 implies all[i].id
        != (#[trigger] all[j]).id by {
        let a = above.len() as int;
        let h = a + held.len();
        if i < a {
            assert(all[i] == above[i]);
        } else if i < h {
            assert(all[i] == held[i - a]);
        } else {
            assert(all[i] == below[i - h]);
        }
        if j < a {
            assert(all[j] == above[j]);
        } else if j < h {
            assert(all[j] == held[j - a]);
        } else {
            assert(all[j] == below[j - h]);
        }
    }
    lemma_window(pages::with_history(c, page, peer, offset));
}

/// The same page arriving a second time brings nothing: no message changes, and the selection does
/// not shift.
pub proof fn the_same_history_twice_adds_nothing(
    c: ChatView,
    page: Seq<proto::MessageView>,
    peer: i64,
    offset: int,
)
    requires
        c.messages.len() <= CHAT_WINDOW,
        in_order(c.messages),
        newest_first(page, peer),
        forall|i: int|
            0 <= i < page.len() && (#[trigger] page[i]).peer.id == peer ==> page[i].id != 0,
    ensures
        ({
            let once = pages::after_history(c, page, peer, offset);
            &&& pages::after_history(once, page, peer, offset).messages == once.messages
            &&& pages::prepended(once, page, peer, offset) == 0
        }),
{
    if pages::speaks_of(page, peer) {
        let once = pages::after_history(c, page, peer, offset);
        let now = once.messages;
        lemma_window(pages::with_history(c, page, peer, offset));
        let up = |id: i32| pages::goes_above(now, id);
        let down = |id: i32| pages::goes_below(now, id);
        lemma_bubbles(page, peer, up, offset);
        lemma_bubbles(page, peer, down, offset);
        let a = pages::bubbles_where(page, peer, up, offset);
        let b = pages::bubbles_where(page, peer, down, offset);
        if b.len() > 0 {
            assert(down(b[0].id));
            let j = choose|j: int|
                0 <= j < page.len() && (#[trigger] page[j]).peer.id == peer && page[j].id
                    == b[0].id;
            lemma_nothing_new(c, page, peer, offset, j);
        }
        if a.len() > 0 {
            assert(up(a[0].id));
            let j = choose|j: int|
                0 <= j < page.len() && (#[trigger] page[j]).peer.id == peer && page[j].id
                    == a[0].id;
            lemma_nothing_new(c, page, peer, offset, j);
        }
        assert(pages::added_above(now, page, peer, offset) =~= seq![]);
        assert(pages::added_below(now, page, peer, offset) =~= seq![]);
        assert(pages::with_history(once, page, peer, offset).messages =~= now);
    }
}

/// What is no newer than one of some messages does not go below what is left of them at their end.
proof fn lemma_not_below(all: Seq<MessageView>, n: int, id: i32, z: int, p: int)
    requires
        in_order(all),
        0 <= n <= z < all.len(),
        all[z].id != 0,
        0 <= p < all.len(),
        all[p].id != 0,
        id <= all[p].id,
    ensures
        !pages::goes_below(all.skip(n), id),
{
    let now = all.skip(n);
    lemma_lowest(now);
    assert(now[z - n] == all[z]);
    if p >= n {
        assert(now[p - n] == all[p]);
    }
}

/// What is no older than one of some messages does not go above them.
proof fn lemma_not_above(all: Seq<MessageView>, id: i32, q: int)
    requires
        0 <= q < all.len(),
        all[q].id != 0,
        all[q].id <= id,
    ensures
        !pages::goes_above(all, id),
{
    lemma_lowest(all);
}

/// A message of a page that was folded in is there, or is no newer than one that is; and it is no
/// older than one that is, unless there was no room above.
proof fn lemma_placed(
    c: ChatView,
    page: Seq<proto::MessageView>,
    peer: i64,
    offset: int,
    j: int,
) -> (at: (int, int))
    requires
        0 <= j < page.len(),
        page[j].peer.id == peer,
        page[j].id != 0,
    ensures
        ({
            let all = pages::with_history(c, page, peer, offset).messages;
            let id = page[j].id;
            &&& 0 <= at.0 < all.len() && all[at.0].id != 0 && id <= all[at.0].id
            &&& c.messages.len() >= CHAT_WINDOW || (0 <= at.1 < all.len() && all[at.1].id != 0
                && all[at.1].id <= id)
        }),
{
    let id = page[j].id;
    let held = c.messages;
    let all = pages::with_history(c, page, peer, offset).messages;
    let above = pages::added_above(held, page, peer, offset);
    let below = pages::added_below(held, page, peer, offset);
    let a = above.len() as int;
    let h = a + held.len();
    lemma_lowest(held);
    lemma_parts(c, page, peer, offset);
    if pages::holds(held, id) {
        let k = choose|k: int| 0 <= k < held.len() && (#[trigger] held[k]).id == id;
        assert(all[a + k] == held[k]);
        (a + k, a + k)
    } else if pages::goes_below(held, id) {
        let down = |x: i32| pages::goes_below(held, x);
        assert(down(id));
        lemma_none_left_out(page, peer, down, offset, j);
        let k = choose|k: int| 0 <= k < below.len() && (#[trigger] below[k]).id == id;
        assert(all[h + k] == below[k]);
        (h + k, h + k)
    } else {
        let p = choose|p: int|
            0 <= p < held.len() && (#[trigger] held[p]).id == pages::highest(held)->0;
        let q = choose|q: int|
            0 <= q < held.len() && (#[trigger] held[q]).id == pages::lowest(held)->0;
        assert(all[a + p] == held[p]);
        assert(all[a + q] == held[q]);
        if pages::goes_above(held, id) && held.len() < CHAT_WINDOW {
            let up = |x: i32| pages::goes_above(held, x);
            assert(up(id));
            lemma_none_left_out(page, peer, up, offset, j);
            let k = choose|k: int| 0 <= k < above.len() && (#[trigger] above[k]).id == id;
            assert(all[k] == above[k]);
            (k, k)
        } else {
            (a + p, a + q)
        }
    }
}

/// No message of a page that was folded in goes below what is held then, and one that goes above
/// finds no room.
proof fn lemma_nothing_new(
    c: ChatView,
    page: Seq<proto::MessageView>,
    peer: i64,
    offset: int,
    j: int,
)
    requires
        c.messages.len() <= CHAT_WINDOW,
        in_order(c.messages),
        newest_first(page, peer),
        forall|i: int|
            0 <= i < page.len() && (#[trigger] page[i]).peer.id == peer ==> page[i].id != 0,
        0 <= j < page.len(),
        page[j].peer.id == peer,
    ensures
        ({
            let now = pages::after_history(c, page, peer, offset).messages;
            &&& !pages::goes_below(now, page[j].id)
            &&& now.len() >= CHAT_WINDOW || !pages::goes_above(now, page[j].id)
        }),
{
    let id = page[j].id;
    let held = c.messages;
    let w = pages::with_history(c, page, peer, offset);
    let all = w.messages;
    let above = pages::added_above(held, page, peer, offset);
    let below = pages::added_below(held, page, peer, offset);
    let n = pages::overflow(w);
    assert(pages::speaks_of(page, peer));
    lemma_window(w);
    lemma_parts(c, page, peer, offset);
    lemma_all_in_order(c, page, peer, offset);
    let (p, q) = lemma_placed(c, page, peer, offset, j);
    if n > 0 {
        // Something of the page is in the window, and it has a server id.
        let z = if below.len() > 0 {
            assert(all[all.len() - 1] == below[below.len() - 1]);
            lemma_ids(page, peer, |x: i32| pages::goes_below(held, x), offset, below.len() - 1);
            all.len() - 1
        } else {
            assert(all[n] == above[n]);
            lemma_ids(page, peer, |x: i32| pages::goes_above(held, x), offset, n);
            n
        };
        lemma_not_below(all, n, id, z, p);
    } else {
        lemma_not_below(all, n, id, p, p);
        if held.len() < CHAT_WINDOW {
            assert(all.skip(0) =~= all);
            lemma_not_above(all, id, q);
        }
    }
}

/// The bubbles of a page whose messages all have server ids have one each.
proof fn lemma_ids(
    page: Seq<proto::MessageView>,
    peer: i64,
    keep: spec_fn(i32) -> bool,
    offset: int,
    k: int,
)
    requires
        forall|i: int|
            0 <= i < page.len() && (#[trigger] page[i]).peer.id == peer ==> page[i].id != 0,
        0 <= k < pages::bubbles_where(page, peer, keep, offset).len(),
    ensures
        pages::bubbles_where(page, peer, keep, offset)[k].id != 0,
{
    lemma_bubbles(page, peer, keep, offset);
}

/// A page that is not empty leaves at most a window of messages, the newest of what was held and
/// what it brought; and the cursor names a message that is still held whenever one was dropped.
pub proof fn history_keeps_the_newest(
    c: ChatView,
    page: Seq<proto::MessageView>,
    peer: i64,
    offset: int,
)
    requires
        pages::speaks_of(page, peer),
    ensures
        ({
            let w = pages::with_history(c, page, peer, offset);
            let r = pages::after_history(c, page, peer, offset);
            &&& r.messages.len() <= CHAT_WINDOW
            &&& r.messages == w.messages.skip(w.messages.len() - r.messages.len())
            &&& (pages::overflow(w) > 0 ==> r.windowed && r.messages.len() == CHAT_WINDOW && r.oldest
                == r.messages[0].id)
            &&& (pages::overflow(w) == 0 ==> r.messages == w.messages)
        }),
{
    let w = pages::with_history(c, page, peer, offset);
    assert(w.messages.skip(0) =~= w.messages);
}

/// Only a page with nothing of this conversation ends it.
pub proof fn only_an_empty_page_ends_a_conversation(
    c: ChatView,
    page: Seq<proto::MessageView>,
    peer: i64,
    offset: int,
)
    ensures
        pages::after_history(c, page, peer, offset).complete == (c.complete || !pages::speaks_of(page, peer)),
        !pages::after_history(c, page, peer, offset).loading,
        !pages::speaks_of(page, peer) ==> pages::after_history(c, page, peer, offset).messages == c.messages,
{
}

/// A page that is entirely held already moves nothing: no message is added and the selection does
/// not shift.
pub proof fn a_page_already_held_changes_nothing(
    c: ChatView,
    page: Seq<proto::MessageView>,
    peer: i64,
    offset: int,
)
    requires
        c.messages.len() <= CHAT_WINDOW,
        forall|i: int|
            0 <= i < page.len() && (#[trigger] page[i]).peer.id == peer ==> pages::holds(
                c.messages,
                page[i].id,
            ),
    ensures
        pages::after_history(c, page, peer, offset).messages == c.messages,
        pages::prepended(c, page, peer, offset) == 0,
        pages::after_history(c, page, peer, offset).windowed == c.windowed,
{
    let held = c.messages;
    let up = |id: i32| pages::goes_above(held, id);
    let down = |id: i32| pages::goes_below(held, id);
    lemma_bubbles(page, peer, up, offset);
    lemma_bubbles(page, peer, down, offset);
    let a = pages::bubbles_where(page, peer, up, offset);
    let b = pages::bubbles_where(page, peer, down, offset);
    if a.len() > 0 {
        assert(up(a[0].id));
        assert(pages::holds(held, a[0].id));
    }
    if b.len() > 0 {
        assert(down(b[0].id));
        assert(pages::holds(held, b[0].id));
    }
    assert(seq![] + held + seq![] =~= held);
    assert(a =~= seq![]);
    assert(b =~= seq![]);
    assert(pages::with_history(c, page, peer, offset).messages =~= held);
}

/// A full chat refuses a page that is all older than what it holds: nothing is displaced, and it is
/// marked so that the screen stops asking. It is not marked complete, since the server has more.
pub proof fn a_full_chat_refuses_older_messages(
    c: ChatView,
    page: Seq<proto::MessageView>,
    peer: i64,
    offset: int,
)
    requires
        c.messages.len() == CHAT_WINDOW,
        pages::speaks_of(page, peer),
        forall|i: int|
            0 <= i < page.len() && (#[trigger] page[i]).peer.id == peer ==> pages::goes_above(
                c.messages,
                page[i].id,
            ),
    ensures
        pages::after_history(c, page, peer, offset).messages == c.messages,
        pages::after_history(c, page, peer, offset).windowed,
        pages::after_history(c, page, peer, offset).complete == c.complete,
        pages::prepended(c, page, peer, offset) == 0,
{
    let held = c.messages;
    let down = |id: i32| pages::goes_below(held, id);
    lemma_lowest(held);
    lemma_bubbles(page, peer, down, offset);
    let b = pages::bubbles_where(page, peer, down, offset);
    if b.len() > 0 {
        assert(down(b[0].id));
        assert(pages::goes_above(held, b[0].id));
    }
    assert(b =~= seq![]);
    let i = choose|i: int| 0 <= i < page.len() && (#[trigger] page[i]).peer.id == peer;
    assert(pages::goes_above(held, page[i].id));
    assert(pages::reaches_above(page, peer, held));
    assert(pages::with_history(c, page, peer, offset).messages =~= held);
}

// ---- the window and the clock ---------------------------------------------------------------------

/// Trimming holds the window, keeps the newest, and trimming again does nothing.
pub proof fn trimming_keeps_the_newest(c: ChatView)
    ensures
        pages::trimmed(c).messages.len() <= CHAT_WINDOW,
        pages::trimmed(c).messages == c.messages.skip(pages::overflow(c)),
        pages::trimmed(pages::trimmed(c)) == pages::trimmed(c),
        pages::overflow(c) > 0 ==> {
            &&& pages::trimmed(c).oldest == pages::trimmed(c).messages[0].id
            &&& pages::trimmed(c).windowed
        },
{
    assert(c.messages.skip(0) =~= c.messages);
}

/// The time of day does not depend on the day.
pub proof fn the_clock_ignores_the_day(unix: int, offset: int)
    requires
        unix > 0,
    ensures
        pages::clock(unix + 86_400, offset) == pages::clock(unix, offset),
        unix % 86_400 > 0 ==> pages::clock(unix, offset) == pages::clock(unix % 86_400, offset),
{
    assert((unix + 86_400 + offset) % 86_400 == (unix + offset) % 86_400);
    assert((unix % 86_400 + offset) % 86_400 == (unix + offset) % 86_400) by (nonlinear_arith);
}

} // verus!
