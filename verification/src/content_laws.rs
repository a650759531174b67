//! What a page brings: each row and each message says what the server said of it.

use crate::model::{ChatView, Delivery, MediaView, MessageView, StoreView};
use crate::page_laws;
use crate::pages;
use crate::pages::{CHAT_WINDOW, DIALOG_LIMIT, SCREEN_H, SCREEN_W};
use crate::proto;
use crate::proto::{DialogView, PageView, Peer, SizeView};
use crate::text;
use vstd::prelude::*;

verus! {

// ---- numbers and times ----------------------------------------------------------------------------

/// The number some decimal digits stand for, most significant first.
pub open spec fn value(s: Seq<char>) -> int
    decreases s.len(),
{
    if s.len() == 0 {
        0
    } else {
        value(s.drop_last()) * 10 + (s.last() as int - '0' as int)
    }
}

/// Whether a character is a decimal digit.
pub open spec fn is_digit(c: char) -> bool {
    '0' <= c <= '9'
}

/// A number written in decimal reads back as itself, in digits, and without a zero in front.
pub proof fn a_number_reads_back(v: nat)
    ensures
        value(text::decimal(v)) == v,
        text::decimal(v).len() > 0,
        forall|i: int| 0 <= i < text::decimal(v).len() ==> is_digit(#[trigger] text::decimal(v)[i]),
        v > 0 ==> text::decimal(v)[0] != '0',
    decreases v,
{
    let s = text::decimal(v);
    if v < 10 {
        assert(s.drop_last() =~= seq![]);
        assert(value(s.drop_last()) == 0);
        assert(s.last() == text::digit(v));
    } else {
        let high = text::decimal(v / 10);
        a_number_reads_back(v / 10);
        assert(s.drop_last() =~= high);
        assert(s.last() == text::digit(v % 10));
        assert(s[0] == high[0]);
        assert forall|i: int| 0 <= i < s.len() implies is_digit(#[trigger] s[i]) by {
            if i < high.len() {
                assert(s[i] == high[i]);
            }
        }
    }
}

/// A negative number is written as its size behind a sign, and any other as itself.
pub proof fn a_signed_number_reads_back(v: int)
    ensures
        v >= 0 ==> value(text::signed_decimal(v)) == v,
        v < 0 ==> text::signed_decimal(v)[0] == '-' && value(text::signed_decimal(v).skip(1)) == -v,
{
    if v < 0 {
        a_number_reads_back((-v) as nat);
        assert(text::signed_decimal(v).skip(1) =~= text::decimal((-v) as nat));
    } else {
        a_number_reads_back(v as nat);
    }
}

/// Whether a text is the time of day a moment falls on, `offset` seconds east of UTC: hours and
/// minutes, two digits each. A moment that is not after the epoch has none.
pub open spec fn shows_time(t: Seq<char>, unix: int, offset: int) -> bool {
    if unix <= 0 {
        t.len() == 0
    } else {
        let minute = ((unix + offset) % 86_400) / 60;
        &&& t.len() == 5
        &&& is_digit(t[0]) && is_digit(t[1]) && t[2] == ':' && is_digit(t[3]) && is_digit(t[4])
        &&& (t[0] as int - 48) * 10 + (t[1] as int - 48) == minute / 60
        &&& (t[3] as int - 48) * 10 + (t[4] as int - 48) == minute % 60
    }
}

/// The clock shows the hour and the minute of the day.
pub proof fn the_clock_shows_the_time_of_day(unix: int, offset: int)
    ensures
        shows_time(pages::clock(unix, offset), unix, offset),
{
    if unix > 0 {
        let local = (unix + offset) % 86_400;
        let t = pages::clock(unix, offset);
        assert(0 <= local < 86_400);
        assert(t =~= seq![
            text::digit(((local / 3600) / 10) as nat),
            text::digit(((local / 3600) % 10) as nat),
            ':',
            text::digit(((local % 3600 / 60) / 10) as nat),
            text::digit(((local % 3600 / 60) % 10) as nat),
        ]);
        assert((local / 60) / 60 == local / 3600);
        assert((local / 60) % 60 == local % 3600 / 60);
    }
}

// ---- attachments ----------------------------------------------------------------------------------

/// Whether a size of a photo can be asked for by its type.
pub open spec fn can_be_asked_for(s: SizeView) -> bool {
    s.inline is None && s.kind.len() > 0
}

/// Whether a size of a photo is as wide or as high as the screen.
pub open spec fn fills_the_screen(s: SizeView) -> bool {
    can_be_asked_for(s) && (s.w >= SCREEN_W || s.h >= SCREEN_H)
}

/// Whether one of the sizes of a photo is the one to download. A baseline one before a progressive
/// one; then, among those that fill the screen, the one with the fewest pixels, and where none does,
/// the one with the most.
pub open spec fn is_the_one_to_download(sizes: Seq<SizeView>, s: SizeView) -> bool {
    if exists|i: int| 0 <= i < sizes.len() && fills_the_screen(#[trigger] sizes[i]) {
        &&& fills_the_screen(s)
        &&& forall|i: int|
            0 <= i < sizes.len() && fills_the_screen(#[trigger] sizes[i]) ==> {
                &&& !sizes[i].progressive ==> !s.progressive
                &&& sizes[i].progressive == s.progressive ==> s.w * s.h <= sizes[i].w * sizes[i].h
            }
    } else {
        &&& can_be_asked_for(s)
        &&& forall|i: int|
            0 <= i < sizes.len() && can_be_asked_for(#[trigger] sizes[i]) ==> {
                &&& !sizes[i].progressive ==> !s.progressive
                &&& sizes[i].progressive == s.progressive ==> s.w * s.h >= sizes[i].w * sizes[i].h
            }
    }
}

proof fn lemma_lightest(s: Seq<SizeView>, w: i32, h: i32, n: int) -> (best: int)
    requires
        0 <= n <= s.len(),
    ensures
        best == -1 ==> forall|j: int| 0 <= j < n ==> !pages::covers(#[trigger] s[j], w, h),
        best != -1 ==> 0 <= best < n && pages::covers(s[best], w, h) && forall|j: int|
            0 <= j < n && pages::covers(#[trigger] s[j], w, h) ==> !pages::lighter(s[j], s[best])
                && (j < best ==> pages::lighter(s[best], s[j])),
    decreases n,
{
    if n == 0 {
        -1
    } else {
        let b = lemma_lightest(s, w, h, n - 1);
        if pages::covers(s[n - 1], w, h) && (b == -1 || pages::lighter(s[n - 1], s[b])) {
            n - 1
        } else {
            b
        }
    }
}

proof fn lemma_largest(s: Seq<SizeView>, n: int) -> (best: int)
    requires
        0 <= n <= s.len(),
    ensures
        best == -1 ==> forall|j: int| 0 <= j < n ==> !pages::downloadable(#[trigger] s[j]),
        best != -1 ==> 0 <= best < n && pages::downloadable(s[best]) && forall|j: int|
            0 <= j < n && pages::downloadable(#[trigger] s[j]) ==> !pages::larger(s[j], s[best]) && (
            best < j ==> pages::larger(s[best], s[j])),
    decreases n,
{
    if n == 0 {
        -1
    } else {
        let b = lemma_largest(s, n - 1);
        if pages::downloadable(s[n - 1]) && (b == -1 || !pages::larger(s[b], s[n - 1])) {
            n - 1
        } else {
            b
        }
    }
}

/// The size picked is one of those there are, and the one to download; and one is picked wherever
/// one can be asked for.
pub proof fn the_size_picked_is_the_one_to_download(s: Seq<SizeView>)
    ensures
        (match pages::picked(s, SCREEN_W, SCREEN_H) {
            Some(p) => (exists|i: int| 0 <= i < s.len() && #[trigger] s[i] == p)
                && is_the_one_to_download(s, p),
            None => forall|i: int| 0 <= i < s.len() ==> !can_be_asked_for(#[trigger] s[i]),
        }),
{
    let (w, h) = (SCREEN_W, SCREEN_H);
    assert forall|i: int| 0 <= i < s.len() implies pages::covers(#[trigger] s[i], w, h)
        == fills_the_screen(s[i]) && pages::downloadable(s[i]) == can_be_asked_for(s[i]) by {}
    let a = lemma_lightest(s, w, h, s.len() as int);
    let b = lemma_largest(s, s.len() as int);
    if a != -1 {
        assert(pages::lightest_covering(s, w, h, a));
        let c = choose|i: int| pages::lightest_covering(s, w, h, i);
        assert(pages::lightest_covering(s, w, h, c));
        assert(fills_the_screen(s[c]));
        assert forall|i: int| 0 <= i < s.len() && fills_the_screen(#[trigger] s[i]) implies (
        !s[i].progressive ==> !s[c].progressive) && (s[i].progressive == s[c].progressive ==> s[c].w
            * s[c].h <= s[i].w * s[i].h) by {
            assert(!pages::lighter(s[i], s[c]));
        }
    } else {
        assert forall|i: int| !pages::lightest_covering(s, w, h, i) by {}
        assert(!exists|i: int| 0 <= i < s.len() && fills_the_screen(#[trigger] s[i]));
        if b != -1 {
            assert(pages::largest_at_all(s, b));
            let c = choose|i: int| pages::largest_at_all(s, i);
            assert(pages::largest_at_all(s, c));
            assert(can_be_asked_for(s[c]));
            assert forall|i: int| 0 <= i < s.len() && can_be_asked_for(#[trigger] s[i]) implies (
            !s[i].progressive ==> !s[c].progressive) && (s[i].progressive == s[c].progressive
                ==> s[c].w * s[c].h >= s[i].w * s[i].h) by {
                assert(!pages::larger(s[i], s[c]));
            }
        }
    }
}

/// Whether some bytes are the whole picture a message brought: the one with the most pixels. Nothing
/// where it brought none.
pub open spec fn is_the_inline_picture(sizes: Seq<SizeView>, b: Option<Seq<u8>>) -> bool {
    if exists|i: int| 0 <= i < sizes.len() && (#[trigger] sizes[i]).complete {
        exists|i: int|
            #![trigger sizes[i]]
            0 <= i < sizes.len() && sizes[i].complete && sizes[i].inline == b && forall|j: int|
                0 <= j < sizes.len() && (#[trigger] sizes[j]).complete ==> sizes[j].w * sizes[j].h
                    <= sizes[i].w * sizes[i].h
    } else {
        b is None
    }
}

proof fn lemma_inline(s: Seq<SizeView>, n: int) -> (best: int)
    requires
        0 <= n <= s.len(),
    ensures
        best == -1 ==> forall|j: int| 0 <= j < n ==> !(#[trigger] s[j]).complete,
        best != -1 ==> 0 <= best < n && s[best].complete && forall|j: int|
            0 <= j < n && (#[trigger] s[j]).complete ==> pages::area(s[j]) <= pages::area(s[best])
                && (best < j ==> pages::area(s[j]) < pages::area(s[best])),
    decreases n,
{
    if n == 0 {
        -1
    } else {
        let b = lemma_inline(s, n - 1);
        if s[n - 1].complete && (b == -1 || pages::area(s[n - 1]) >= pages::area(s[b])) {
            n - 1
        } else {
            b
        }
    }
}

proof fn lemma_inline_picture(s: Seq<SizeView>)
    ensures
        is_the_inline_picture(s, pages::inline_picture(s)),
{
    let b = lemma_inline(s, s.len() as int);
    if b != -1 {
        assert(pages::best_inline(s, b));
        let c = choose|i: int| pages::best_inline(s, i);
        assert(pages::best_inline(s, c));
        assert(s[c].complete);
    } else {
        assert forall|i: int| !pages::best_inline(s, i) by {}
    }
}

/// Whether an attachment is the one the server sent: the same file, at the same data centre, by the
/// same reference, and of the kind its flags say. A document is a voice note by its flag, a track
/// where it has a duration and is none, and a file otherwise.
pub open spec fn is_attached(m: MediaView, sent: proto::MediaView) -> bool {
    match sent {
        proto::MediaView::Photo { id, access_hash, file_reference, dc_id, sizes } => {
            &&& m matches MediaView::Photo {
                id: i,
                access_hash: a,
                file_reference: f,
                dc_id: d,
                thumb_size,
                size,
                preview,
            }
            &&& i == id && a == access_hash && f == file_reference && d == dc_id
            &&& is_the_inline_picture(sizes, preview)
            &&& if exists|k: int| 0 <= k < sizes.len() && can_be_asked_for(#[trigger] sizes[k]) {
                exists|k: int|
                    #![trigger sizes[k]]
                    0 <= k < sizes.len() && is_the_one_to_download(sizes, sizes[k]) && thumb_size
                        == sizes[k].kind && size == sizes[k].size
            } else {
                thumb_size.len() == 0 && size == 0
            }
        },
        proto::MediaView::Sticker { id, access_hash, file_reference, dc_id, alt, thumbs } => {
            &&& m matches MediaView::Sticker {
                id: i,
                access_hash: a,
                file_reference: f,
                dc_id: d,
                alt: x,
                preview,
            }
            &&& i == id && a == access_hash && f == file_reference && d == dc_id && x == alt
            &&& is_the_inline_picture(thumbs, preview)
        },
        proto::MediaView::Document {
            id,
            access_hash,
            file_reference,
            dc_id,
            filename,
            size,
            duration,
            is_voice,
            waveform,
        } => match m {
            MediaView::Voice {
                id: i,
                access_hash: a,
                file_reference: f,
                dc_id: d,
                duration: s,
                waveform: w,
                size: n,
            } => {
                &&& is_voice
                &&& i == id && a == access_hash && f == file_reference && d == dc_id && n == size
                &&& w == waveform
                &&& s == (if duration is Some {
                    duration->0
                } else {
                    0
                })
            },
            MediaView::Audio {
                id: i,
                access_hash: a,
                file_reference: f,
                dc_id: d,
                filename: x,
                duration: s,
                size: n,
            } => {
                &&& !is_voice && duration == Some(s)
                &&& i == id && a == access_hash && f == file_reference && d == dc_id && n == size
                &&& filename is Some ==> x == filename->0
                &&& filename is None ==> x.len() == 0
            },
            MediaView::File {
                id: i,
                access_hash: a,
                file_reference: f,
                dc_id: d,
                filename: x,
                size: n,
            } => {
                &&& !is_voice && duration is None
                &&& i == id && a == access_hash && f == file_reference && d == dc_id && n == size
                &&& filename is Some ==> x == filename->0
                &&& filename is None ==> x.len() == 0
            },
            _ => false,
        },
        proto::MediaView::Unsupported => m is Unknown,
    }
}

/// An attachment is the one the server sent.
pub proof fn an_attachment_is_the_one_sent(sent: proto::MediaView)
    ensures
        is_attached(pages::media_of(sent), sent),
{
    match sent {
        proto::MediaView::Photo { sizes, .. } => {
            lemma_inline_picture(sizes);
            the_size_picked_is_the_one_to_download(sizes);
            match pages::picked(sizes, SCREEN_W, SCREEN_H) {
                Some(p) => {
                    let i = choose|i: int| 0 <= i < sizes.len() && #[trigger] sizes[i] == p;
                    assert(can_be_asked_for(sizes[i]));
                    assert(is_the_one_to_download(sizes, sizes[i]));
                },
                None => {},
            }
        },
        proto::MediaView::Sticker { thumbs, .. } => {
            lemma_inline_picture(thumbs);
        },
        _ => {},
    }
}

// ---- messages -------------------------------------------------------------------------------------

/// Whether a bubble is a message the server sent: its id, its words, whose it is, when it was sent,
/// and what it carries. One of one's own has been sent; one of the other party's has been read.
pub open spec fn is_of(b: MessageView, m: proto::MessageView, offset: int) -> bool {
    &&& b.id == m.id
    &&& b.text == m.text
    &&& b.outgoing == m.out
    &&& m.out ==> b.state == Delivery::Sent
    &&& !m.out ==> b.state == Delivery::Read
    &&& shows_time(b.time, m.date as int, offset)
    &&& b.media is Some == m.media is Some
    &&& m.media is Some ==> is_attached(b.media->0, m.media->0)
}

proof fn lemma_bubble(m: proto::MessageView, offset: int)
    ensures
        is_of(pages::bubble_of(m, offset), m, offset),
{
    the_clock_shows_the_time_of_day(m.date as int, offset);
    if m.media is Some {
        an_attachment_is_the_one_sent(m.media->0);
    }
}

/// Whether a bubble is one of the messages a page holds of a peer.
pub open spec fn is_of_page(
    b: MessageView,
    page: Seq<proto::MessageView>,
    peer: i64,
    offset: int,
) -> bool {
    exists|j: int|
        #![trigger page[j]]
        0 <= j < page.len() && page[j].peer.id == peer && is_of(b, page[j], offset)
}

proof fn lemma_taken(
    page: Seq<proto::MessageView>,
    peer: i64,
    keep: spec_fn(i32) -> bool,
    offset: int,
    k: int,
)
    requires
        0 <= k < pages::bubbles_where(page, peer, keep, offset).len(),
    ensures
        is_of_page(pages::bubbles_where(page, peer, keep, offset)[k], page, peer, offset),
    decreases page.len(),
{
    let r = pages::bubbles_where(page, peer, keep, offset);
    let front = page.drop_last();
    let m = page.last();
    let rest = pages::bubbles_where(front, peer, keep, offset);
    let taken = m.peer.id == peer && keep(m.id) && !pages::stands_in(front, peer, m.id);
    if taken && k == 0 {
        lemma_bubble(m, offset);
        assert(page[page.len() - 1] == m);
    } else {
        let at = if taken {
            k - 1
        } else {
            k
        };
        assert(r[k] == rest[at]);
        lemma_taken(front, peer, keep, offset, at);
        let j = choose|j: int|
            #![trigger front[j]]
            0 <= j < front.len() && front[j].peer.id == peer && is_of(rest[at], front[j], offset);
        assert(page[j] == front[j]);
    }
}

/// Every message of a conversation after a page of history was there before, or is one that the page
/// holds of this peer, as the page has it.
pub proof fn history_is_what_the_page_says(
    c: ChatView,
    page: Seq<proto::MessageView>,
    peer: i64,
    offset: int,
    k: int,
)
    requires
        0 <= k < pages::after_history(c, page, peer, offset).messages.len(),
    ensures
        ({
            let m = pages::after_history(c, page, peer, offset).messages[k];
            ||| c.messages.contains(m)
            ||| is_of_page(m, page, peer, offset)
        }),
{
    let held = c.messages;
    let r = pages::after_history(c, page, peer, offset);
    if pages::speaks_of(page, peer) {
        let up = |id: i32| pages::goes_above(held, id);
        let down = |id: i32| pages::goes_below(held, id);
        let above = pages::added_above(held, page, peer, offset);
        let below = pages::added_below(held, page, peer, offset);
        let w = pages::with_history(c, page, peer, offset);
        let n = pages::overflow(w);
        assert(w.messages.skip(0) =~= w.messages);
        assert(r.messages[k] == w.messages[k + n]);
        let at = k + n;
        if at < above.len() {
            assert(w.messages[at] == above[at]);
            lemma_taken(page, peer, up, offset, at);
        } else if at < above.len() + held.len() {
            assert(w.messages[at] == held[at - above.len()]);
        } else {
            let b = at - above.len() - held.len();
            assert(w.messages[at] == below[b]);
            lemma_taken(page, peer, down, offset, b);
        }
    } else {
        assert(r.messages[k] == held[k]);
    }
}

/// While there is room, a page loses nothing: what was held stays, in its order, and every message of
/// the peer that is older than all of it or newer than all of it comes in.
pub proof fn history_loses_nothing(
    c: ChatView,
    page: Seq<proto::MessageView>,
    peer: i64,
    offset: int,
    j: int,
)
    requires
        pages::after_history(c, page, peer, offset).messages.len() < CHAT_WINDOW,
        0 <= j < page.len(),
        page[j].peer.id == peer,
        page[j].id != 0,
        (forall|i: int| 0 <= i < c.messages.len() ==> (#[trigger] c.messages[i]).id < page[j].id) || (
        forall|i: int|
            0 <= i < c.messages.len() ==> page[j].id < (#[trigger] c.messages[i]).id && c.messages[i].id
                != 0),
    ensures
        ({
            let r = pages::after_history(c, page, peer, offset).messages;
            let shift = pages::prepended(c, page, peer, offset);
            &&& exists|k: int| 0 <= k < r.len() && (#[trigger] r[k]).id == page[j].id
            &&& 0 <= shift && shift + c.messages.len() <= r.len()
            &&& forall|i: int| 0 <= i < c.messages.len() ==> #[trigger] c.messages[i] == r[i + shift]
        }),
{
    let held = c.messages;
    let id = page[j].id;
    assert(pages::speaks_of(page, peer));
    let up = |x: i32| pages::goes_above(held, x);
    let down = |x: i32| pages::goes_below(held, x);
    let above = pages::added_above(held, page, peer, offset);
    let below = pages::added_below(held, page, peer, offset);
    let w = pages::with_history(c, page, peer, offset);
    let r = pages::after_history(c, page, peer, offset).messages;
    assert(w.messages.len() < CHAT_WINDOW && r == w.messages);
    page_laws::lemma_lowest(held);
    if pages::holds(held, id) {
        let i = choose|i: int| 0 <= i < held.len() && #[trigger] held[i].id == id;
        assert(false);
    }
    if forall|i: int| 0 <= i < held.len() ==> (#[trigger] held[i]).id < id {
        assert(down(id));
        page_laws::lemma_none_left_out(page, peer, down, offset, j);
        let k = choose|k: int| 0 <= k < below.len() && (#[trigger] below[k]).id == id;
        assert(r[above.len() + held.len() + k] == below[k]);
    } else {
        assert(up(id));
        page_laws::lemma_none_left_out(page, peer, up, offset, j);
        let k = choose|k: int| 0 <= k < above.len() && (#[trigger] above[k]).id == id;
        assert(r[k] == above[k]);
    }
    assert forall|i: int| 0 <= i < held.len() implies #[trigger] held[i] == r[i + above.len()] by {}
}

/// A page of history touches nothing of a conversation but its messages and how far they reach.
pub proof fn history_leaves_the_row_alone(
    c: ChatView,
    page: Seq<proto::MessageView>,
    peer: i64,
    offset: int,
)
    ensures
        ({
            let r = pages::after_history(c, page, peer, offset);
            &&& r.peer == c.peer
            &&& r.name == c.name
            &&& r.time == c.time
            &&& r.unread == c.unread
            &&& r.last_outgoing == c.last_outgoing
        }),
{
}

/// The next page of history is asked for above the oldest message held: the id it goes by is that of
/// a message that is held, and no message held has a lower one.
pub proof fn the_next_history_is_asked_above_the_oldest(
    c: ChatView,
    page: Seq<proto::MessageView>,
    peer: i64,
    offset: int,
)
    requires
        exists|j: int| 0 <= j < page.len() && (#[trigger] page[j]).peer.id == peer,
        pages::after_history(c, page, peer, offset).messages.len() < CHAT_WINDOW,
    ensures
        ({
            let r = pages::after_history(c, page, peer, offset);
            if forall|i: int| 0 <= i < r.messages.len() ==> (#[trigger] r.messages[i]).id == 0 {
                r.oldest == 0
            } else {
                &&& exists|i: int| 0 <= i < r.messages.len() && (#[trigger] r.messages[i]).id
                    == r.oldest
                &&& forall|i: int|
                    0 <= i < r.messages.len() && (#[trigger] r.messages[i]).id != 0 ==> r.oldest
                        <= r.messages[i].id
            }
        }),
{
    let w = pages::with_history(c, page, peer, offset);
    assert(pages::speaks_of(page, peer));
    page_laws::lemma_lowest(w.messages);
    assert(pages::after_history(c, page, peer, offset) == w);
}

/// A message whose attachment is asked for again keeps all but the attachment, which is the one sent;
/// every other message stays as it was.
pub proof fn a_refreshed_attachment_is_the_one_sent(
    c: ChatView,
    id: i32,
    fresh: proto::MessageView,
    k: int,
)
    requires
        0 <= k < c.messages.len(),
    ensures
        ({
            let r = pages::refreshed(c, id, fresh).messages;
            let first = c.messages[k].id == id && forall|j: int|
                0 <= j < k ==> (#[trigger] c.messages[j]).id != id;
            &&& r.len() == c.messages.len()
            &&& r[k].id == c.messages[k].id
            &&& r[k].text == c.messages[k].text
            &&& r[k].outgoing == c.messages[k].outgoing
            &&& r[k].time == c.messages[k].time
            &&& r[k].state == c.messages[k].state
            &&& if first && fresh.media is Some {
                r[k].media is Some && is_attached(r[k].media->0, fresh.media->0)
            } else {
                r[k].media == c.messages[k].media
            }
        }),
{
    let first = c.messages[k].id == id && forall|j: int|
        0 <= j < k ==> (#[trigger] c.messages[j]).id != id;
    if first {
        assert(pages::first_with_id(c.messages, id, k));
    }
    if fresh.media is Some {
        an_attachment_is_the_one_sent(fresh.media->0);
        if exists|i: int| pages::first_with_id(c.messages, id, i) {
            let i = choose|i: int| pages::first_with_id(c.messages, id, i);
            assert(pages::first_with_id(c.messages, id, i));
            if first {
                assert(i == k);
            }
        }
    }
}

// ---- rows -----------------------------------------------------------------------------------------

/// Whether a page gives a peer a title: the first it has for it, or words that say it has none.
pub open spec fn is_titled(names: Seq<(Peer, Seq<char>)>, peer: Peer, title: Seq<char>) -> bool {
    if exists|i: int| 0 <= i < names.len() && (#[trigger] names[i]).0 == peer {
        exists|i: int|
            #![trigger names[i]]
            0 <= i < names.len() && names[i].0 == peer && names[i].1 == title && forall|j: int|
                0 <= j < i ==> (#[trigger] names[j]).0 != peer
    } else {
        title == "(sem nome)"@
    }
}

proof fn lemma_title(names: Seq<(Peer, Seq<char>)>, peer: Peer)
    ensures
        is_titled(names, peer, pages::title_of(names, peer)),
    decreases names.len(),
{
    if names.len() > 0 {
        let rest = names.skip(1);
        if names[0].0 == peer {
        } else {
            lemma_title(rest, peer);
            if exists|i: int| 0 <= i < names.len() && (#[trigger] names[i]).0 == peer {
                let i = choose|i: int| 0 <= i < names.len() && (#[trigger] names[i]).0 == peer;
                assert(rest[i - 1].0 == peer);
                let k = choose|k: int|
                    #![trigger rest[k]]
                    0 <= k < rest.len() && rest[k].0 == peer && rest[k].1 == pages::title_of(
                        names,
                        peer,
                    ) && forall|j: int| 0 <= j < k ==> (#[trigger] rest[j]).0 != peer;
                assert(names[k + 1] == rest[k]);
                assert forall|j: int| 0 <= j < k + 1 implies (#[trigger] names[j]).0 != peer by {
                    if j > 0 {
                        assert(rest[j - 1] == names[j]);
                    }
                }
            } else {
                assert forall|i: int| 0 <= i < rest.len() implies (#[trigger] rest[i]).0 != peer by {
                    assert(names[i + 1] == rest[i]);
                }
            }
        }
    }
}

/// Whether a row is a dialog's: its peer with the hash a request needs, the title the page gives it,
/// the unread messages it counts, and its last message with the time and the sender of that one. It
/// is no conversation yet: a page of history is still to be asked for, above that message.
pub open spec fn is_row_of(
    c: ChatView,
    d: DialogView,
    names: Seq<(Peer, Seq<char>)>,
    offset: int,
) -> bool {
    &&& c.peer matches Some(p)
    &&& p.kind == d.peer.kind && p.id == d.peer.id && p.access_hash == d.access_hash
    &&& is_titled(names, d.peer, c.name)
    &&& d.unread >= 0 ==> c.unread == d.unread
    &&& d.unread < 0 ==> c.unread == 0
    &&& c.oldest == d.top_message
    &&& !c.complete && !c.windowed && !c.loading
    &&& match d.top {
        Some(m) => {
            &&& c.messages.len() == 1
            &&& is_of(c.messages[0], m, offset)
            &&& c.last_outgoing == m.out
            &&& shows_time(c.time, m.date as int, offset)
        },
        None => c.messages.len() == 0 && !c.last_outgoing && c.time.len() == 0,
    }
}

proof fn lemma_row(d: DialogView, names: Seq<(Peer, Seq<char>)>, offset: int)
    ensures
        is_row_of(pages::row_of(d, names, offset), d, names, offset),
{
    lemma_title(names, d.peer);
    if let Some(m) = d.top {
        lemma_bubble(m, offset);
        the_clock_shows_the_time_of_day(m.date as int, offset);
    }
}

proof fn lemma_new_rows(
    chats: Seq<ChatView>,
    d: Seq<DialogView>,
    names: Seq<(Peer, Seq<char>)>,
    offset: int,
    k: int,
)
    requires
        chats.len() <= k < pages::extended(chats, d, names, offset).len(),
    ensures
        exists|j: int|
            #![trigger d[j]]
            0 <= j < d.len() && is_row_of(
                pages::extended(chats, d, names, offset)[k],
                d[j],
                names,
                offset,
            ),
    decreases d.len(),
{
    let e = pages::extended(chats, d, names, offset);
    if d.len() > 0 && chats.len() < DIALOG_LIMIT {
        let rest = d.skip(1);
        let more = if pages::listed(chats, d[0].peer) {
            chats
        } else {
            chats.push(pages::row_of(d[0], names, offset))
        };
        page_laws::lemma_extended_appends(more, rest, names, offset);
        if k < more.len() {
            lemma_row(d[0], names, offset);
            assert(e.take(more.len() as int)[k] == more[k]);
        } else {
            lemma_new_rows(more, rest, names, offset, k);
            let j = choose|j: int|
                #![trigger rest[j]]
                0 <= j < rest.len() && is_row_of(e[k], rest[j], names, offset);
            assert(d[j + 1] == rest[j]);
        }
    }
}

/// Every row a page adds to the list is that of one of its dialogs, and says what the dialog says.
pub proof fn a_new_row_says_what_its_dialog_says(
    s: StoreView,
    page: PageView,
    offset: int,
    k: int,
)
    requires
        s.chats.len() <= k < pages::after_dialogs(s, page, offset).chats.len(),
    ensures
        exists|j: int|
            #![trigger page.dialogs[j]]
            0 <= j < page.dialogs.len() && is_row_of(
                pages::after_dialogs(s, page, offset).chats[k],
                page.dialogs[j],
                page.names,
                offset,
            ),
{
    lemma_new_rows(s.chats, page.dialogs, page.names, offset, k);
}

/// A dialog that is not in the list yet gets a row, as long as the list is not full afterwards.
pub proof fn a_new_dialog_gets_a_row(s: StoreView, page: PageView, offset: int, j: int)
    requires
        0 <= j < page.dialogs.len(),
        pages::after_dialogs(s, page, offset).chats.len() < DIALOG_LIMIT,
    ensures
        ({
            let r = pages::after_dialogs(s, page, offset).chats;
            let p = page.dialogs[j].peer;
            exists|k: int|
                0 <= k < r.len() && ((#[trigger] r[k]).peer matches Some(q) && q.kind == p.kind && q.id
                    == p.id)
        }),
{
    page_laws::lemma_extended_lists(s.chats, page.dialogs, page.names, offset);
    let r = pages::after_dialogs(s, page, offset).chats;
    assert(pages::listed(r, page.dialogs[j].peer));
    let p = page.dialogs[j].peer;
    let k = choose|k: int|
        0 <= k < r.len() && (#[trigger] r[k].peer matches Some(q) && q.kind == p.kind && q.id == p.id);
    assert(r[k].peer is Some);
}

/// The rows of a first page are its dialogs', in order, as many as the list holds.
pub proof fn a_first_page_lists_its_dialogs(page: PageView, offset: int, k: int)
    ensures
        ({
            let r = pages::first_store(page, offset);
            &&& page.dialogs.len() <= DIALOG_LIMIT ==> r.chats.len() == page.dialogs.len()
            &&& page.dialogs.len() > DIALOG_LIMIT ==> r.chats.len() == DIALOG_LIMIT
            &&& 0 <= k < r.chats.len() ==> is_row_of(
                r.chats[k],
                page.dialogs[k],
                page.names,
                offset,
            )
            &&& r.dialogs_complete == (page.total is None || page.dialogs.len() >= DIALOG_LIMIT)
            &&& !r.dialogs_loading
            &&& r.status.len() == 0
        }),
{
    if 0 <= k < page.dialogs.len() {
        lemma_row(page.dialogs[k], page.names, offset);
    }
}

/// The next page of dialogs is asked for from the last one this page holds; a page without any moves
/// nothing.
pub proof fn the_next_dialogs_are_asked_after_the_last(s: StoreView, page: PageView, offset: int)
    ensures
        ({
            let d = page.dialogs;
            let first = pages::first_store(page, offset);
            let further = pages::after_dialogs(s, page, offset);
            let last = d[d.len() - 1];
            let after = |r: StoreView|
                {
                    &&& r.dialog_offset_id == last.top_message
                    &&& last.top is Some ==> r.dialog_offset_date == last.top->0.date
                    &&& last.top is None ==> r.dialog_offset_date == 0
                    &&& r.dialog_offset_peer matches Some(p)
                    &&& p.kind == last.peer.kind
                    &&& p.id == last.peer.id
                    &&& p.access_hash == last.access_hash
                };
            &&& d.len() > 0 ==> after(first) && after(further)
            &&& d.len() == 0 ==> {
                &&& further.dialog_offset_id == s.dialog_offset_id
                &&& further.dialog_offset_date == s.dialog_offset_date
                &&& further.dialog_offset_peer == s.dialog_offset_peer
                &&& first.dialog_offset_id == 0
                &&& first.dialog_offset_date == 0
                &&& first.dialog_offset_peer is None
            }
            &&& further.status == s.status
        }),
{
}

/// The list goes on being asked for while pages bring something new and there is room for it.
pub proof fn the_list_ends_only_where_nothing_is_new(s: StoreView, page: PageView, offset: int)
    requires
        !s.dialogs_complete,
        pages::after_dialogs(s, page, offset).chats.len() > s.chats.len(),
        pages::after_dialogs(s, page, offset).chats.len() < DIALOG_LIMIT,
    ensures
        !pages::after_dialogs(s, page, offset).dialogs_complete,
{
    lemma_not_refused(s.chats, page.dialogs, page.names, offset);
}

proof fn lemma_still_listed(
    chats: Seq<ChatView>,
    d: Seq<DialogView>,
    names: Seq<(Peer, Seq<char>)>,
    offset: int,
    peer: Peer,
)
    requires
        pages::listed(chats, peer),
    ensures
        pages::listed(pages::extended(chats, d, names, offset), peer),
{
    page_laws::lemma_extended_appends(chats, d, names, offset);
    let all = pages::extended(chats, d, names, offset);
    let k = choose|i: int|
        0 <= i < chats.len() && (#[trigger] chats[i].peer matches Some(p) && p.kind == peer.kind
            && p.id == peer.id);
    assert(all[k] == chats[k]);
    assert(all[k].peer is Some);
}

proof fn lemma_left_out(
    chats: Seq<ChatView>,
    d: Seq<DialogView>,
    names: Seq<(Peer, Seq<char>)>,
    offset: int,
    j: int,
)
    requires
        0 <= j < d.len(),
    ensures
        pages::listed(pages::extended(chats, d, names, offset), d[j].peer) || pages::refuses(
            chats,
            d,
            names,
            offset,
        ),
    decreases d.len(),
{
    if chats.len() < DIALOG_LIMIT {
        let peer = d[0].peer;
        let row = pages::row_of(d[0], names, offset);
        let with = if pages::listed(chats, peer) {
            chats
        } else {
            chats.push(row)
        };
        if !pages::listed(chats, peer) {
            assert(with[chats.len() as int] == row);
            assert(with[chats.len() as int].peer == Some(pages::peer_of(d[0])));
            assert(pages::listed(with, peer));
        }
        if j == 0 {
            lemma_still_listed(with, d.skip(1), names, offset, peer);
        } else {
            assert(d.skip(1)[j - 1] == d[j]);
            lemma_left_out(with, d.skip(1), names, offset, j - 1);
        }
    }
}

/// A list that had no room for a dialog of a page is not asked for further.
pub proof fn a_list_without_room_ends(s: StoreView, page: PageView, offset: int, j: int)
    requires
        0 <= j < page.dialogs.len(),
        forall|k: int|
            0 <= k < pages::after_dialogs(s, page, offset).chats.len() ==> !((
            #[trigger] pages::after_dialogs(s, page, offset).chats[k]).peer matches Some(q)
                && q.kind == page.dialogs[j].peer.kind && q.id == page.dialogs[j].peer.id),
    ensures
        pages::after_dialogs(s, page, offset).dialogs_complete,
{
    lemma_left_out(s.chats, page.dialogs, page.names, offset, j);
    let r = pages::after_dialogs(s, page, offset).chats;
    let peer = page.dialogs[j].peer;
    if pages::listed(r, peer) {
        let k = choose|i: int|
            0 <= i < r.len() && (#[trigger] r[i].peer matches Some(p) && p.kind == peer.kind && p.id
                == peer.id);
        assert(r[k].peer is Some);
    }
}

proof fn lemma_not_refused(
    chats: Seq<ChatView>,
    d: Seq<DialogView>,
    names: Seq<(Peer, Seq<char>)>,
    offset: int,
)
    requires
        pages::extended(chats, d, names, offset).len() < DIALOG_LIMIT,
    ensures
        !pages::refuses(chats, d, names, offset),
    decreases d.len(),
{
    if d.len() > 0 {
        page_laws::lemma_extended_appends(chats, d, names, offset);
        if pages::listed(chats, d[0].peer) {
            lemma_not_refused(chats, d.skip(1), names, offset);
        } else {
            lemma_not_refused(
                chats.push(pages::row_of(d[0], names, offset)),
                d.skip(1),
                names,
                offset,
            );
        }
    }
}

} // verus!
