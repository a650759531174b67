//! Folding pages of dialogs and of history into the store.

use crate::model;
use crate::model::{
    copy_bytes, copy_bytes_opt, Chat, ChatView, Delivery, Media, MediaView, Message, MessageView,
    PeerRef, Store, StoreView,
};
use crate::proto;
use crate::proto::{Dialog, DialogView, Named, PageView, Peer, SizeOption, SizeView};
use crate::text;
use crate::text::push_two;
use vstd::prelude::*;

verus! {

/// How many messages of one conversation are held in memory.
pub const CHAT_WINDOW: usize = 100;

/// How many chats the list holds.
pub const DIALOG_LIMIT: usize = 200;

/// The screen a downloaded photo has to fill.
pub const SCREEN_W: i32 = 320;

/// The screen a downloaded photo has to fill.
pub const SCREEN_H: i32 = 240;

// ---- time ----------------------------------------------------------------------------------------

/// `HH:MM` of a moment given in UTC seconds, `offset` seconds east of UTC. Nothing for a moment
/// that is not after the epoch.
pub open spec fn clock(unix: int, offset: int) -> Seq<char> {
    if unix <= 0 {
        seq![]
    } else {
        let local = (unix + offset) % 86_400;
        text::two_digits(local / 3600).push(':') + text::two_digits(local % 3600 / 60)
    }
}

/// `HH:MM` in the handset's local time, from UTC unix seconds and the offset of its locale.
///
/// Zero renders as nothing rather than as midnight: a dialog with no preview message has no
/// time to show.
pub fn hhmm(unix: i64, utc_offset: i32) -> (r: String)
    requires
        unix + utc_offset <= i64::MAX,
    ensures
        r@ == clock(unix as int, utc_offset as int),
{
    let mut s = String::new();
    if unix <= 0 {
        return s;
    }
    let sum: i64 = unix + utc_offset as i64;
    // Half of the range of the offset in whole days, so that what is divided is positive.
    let day: u64 = 86_400;
    let lifted: u64 = if sum >= 0 {
        (sum as u64) % day
    } else {
        ((sum + 24_856 * 86_400) as u64) % day
    };
    let ghost local = (unix + utc_offset) % 86_400;
    assert(lifted == local);
    push_two(&mut s, lifted / 3600);
    s.push(':');
    push_two(&mut s, lifted % 3600 / 60);
    assert(s@ =~= clock(unix as int, utc_offset as int));
    s
}

// ---- which size of a photo ------------------------------------------------------------------------

/// Whether a size can be asked for: it has a type, and its bytes did not come inline.
pub open spec fn downloadable(s: SizeView) -> bool {
    s.inline is None && s.kind.len() > 0
}

/// How many pixels a size has.
pub open spec fn area(s: SizeView) -> int {
    s.w * s.h
}

/// Baseline before progressive, then fewer pixels before more.
pub open spec fn lighter(a: SizeView, b: SizeView) -> bool {
    if a.progressive != b.progressive {
        !a.progressive
    } else {
        area(a) < area(b)
    }
}

/// Baseline before progressive, then more pixels before fewer.
pub open spec fn larger(a: SizeView, b: SizeView) -> bool {
    if a.progressive != b.progressive {
        !a.progressive
    } else {
        area(a) > area(b)
    }
}

/// Whether a size can be asked for and fills a box in at least one axis.
pub open spec fn covers(s: SizeView, w: i32, h: i32) -> bool {
    downloadable(s) && (s.w >= w || s.h >= h)
}

/// Whether `i` is the lightest size that covers the box, the first of equals.
pub open spec fn lightest_covering(s: Seq<SizeView>, w: i32, h: i32, i: int) -> bool {
    &&& 0 <= i < s.len()
    &&& covers(s[i], w, h)
    &&& forall|j: int|
        0 <= j < s.len() && covers(#[trigger] s[j], w, h) ==> !lighter(s[j], s[i]) && (j < i
            ==> lighter(s[i], s[j]))
}

/// Whether `i` is the largest size that can be asked for, the last of equals.
pub open spec fn largest_at_all(s: Seq<SizeView>, i: int) -> bool {
    &&& 0 <= i < s.len()
    &&& downloadable(s[i])
    &&& forall|j: int|
        0 <= j < s.len() && downloadable(#[trigger] s[j]) ==> !larger(s[j], s[i]) && (i < j
            ==> larger(s[i], s[j]))
}

/// The size to download: the lightest that covers the box, or the largest there is when none
/// does.
pub open spec fn picked(s: Seq<SizeView>, w: i32, h: i32) -> Option<SizeView> {
    if exists|i: int| lightest_covering(s, w, h, i) {
        Some(s[choose|i: int| lightest_covering(s, w, h, i)])
    } else if exists|i: int| largest_at_all(s, i) {
        Some(s[choose|i: int| largest_at_all(s, i)])
    } else {
        None
    }
}

fn area_of(s: &SizeOption) -> (r: i64)
    ensures
        r == area(s@),
{
    let (w, h) = (s.w as i64, s.h as i64);
    proof {
        let (a, b) = (s.w as int, s.h as int);
        assert(-0x4000_0000_0000_0000 <= a * b <= 0x4000_0000_0000_0000) by (nonlinear_arith)
            requires
                -0x8000_0000 <= a <= 0x7fff_ffff,
                -0x8000_0000 <= b <= 0x7fff_ffff,
        ;
    }
    w * h
}

/// Choose which of a photo's sizes to download.
///
/// The smallest one that still covers the screen, not the largest: pixels past the edge of the
/// screen are paid for and thrown away. Baseline wins over progressive whatever the sizes say,
/// because the codec is under no obligation to decode a progressive file; one is still tried
/// when there is nothing else.
pub fn pick_size(sizes: &Vec<SizeOption>, max_w: i32, max_h: i32) -> (r: Option<&SizeOption>)
    ensures
        (match r {
            Some(s) => picked(proto::size_views(sizes@), max_w, max_h) == Some(s@),
            None => picked(proto::size_views(sizes@), max_w, max_h) is None,
        }),
        r is None <==> forall|i: int| 0 <= i < sizes@.len() ==> !downloadable(#[trigger] sizes@[i]@),
{
    let ghost v = proto::size_views(sizes@);
    let mut cover: Option<usize> = None;
    let mut large: Option<usize> = None;
    let mut i: usize = 0;
    while i < sizes.len()
        invariant
            i <= sizes.len(),
            v == proto::size_views(sizes@),
            (match cover {
                Some(c) => lightest_covering(v.take(i as int), max_w, max_h, c as int),
                None => forall|j: int| 0 <= j < i ==> !covers(#[trigger] v[j], max_w, max_h),
            }),
            (match large {
                Some(c) => largest_at_all(v.take(i as int), c as int),
                None => forall|j: int| 0 <= j < i ==> !downloadable(#[trigger] v[j]),
            }),
        decreases sizes.len() - i,
    {
        let s = &sizes[i];
        let ghost before = v.take(i as int);
        let ghost after = v.take(i + 1);
        assert(v[i as int] == s@);
        assert(forall|j: int| 0 <= j < i ==> after[j] == before[j]);
        assert(after[i as int] == s@);
        let here: i64 = area_of(s);
        if s.inline.is_none() && !s.kind.as_str().is_empty() {
            if s.w >= max_w || s.h >= max_h {
                let take: bool = match cover {
                    None => true,
                    Some(c) => {
                        let best = &sizes[c];
                        if s.progressive != best.progressive {
                            !s.progressive
                        } else {
                            here < area_of(best)
                        }
                    },
                };
                if take {
                    cover = Some(i);
                }
            }
            let take: bool = match large {
                None => true,
                Some(c) => {
                    let best = &sizes[c];
                    if s.progressive != best.progressive {
                        !s.progressive
                    } else {
                        here >= area_of(best)
                    }
                },
            };
            if take {
                large = Some(i);
            }
        }
        i += 1;
    }
    assert(v.take(v.len() as int) =~= v);
    proof {
        lemma_picks_are_unique(v, max_w, max_h);
        assert(forall|j: int| 0 <= j < sizes@.len() ==> v[j] == #[trigger] sizes@[j]@);
    }
    match cover {
        Some(c) => {
            assert(lightest_covering(v, max_w, max_h, c as int));
            Some(&sizes[c])
        },
        None => match large {
            Some(c) => {
                assert(largest_at_all(v, c as int));
                Some(&sizes[c])
            },
            None => None,
        },
    }
}

/// At most one size is the lightest covering one, and at most one the largest.
proof fn lemma_picks_are_unique(s: Seq<SizeView>, w: i32, h: i32)
    ensures
        forall|i: int, j: int|
            lightest_covering(s, w, h, i) && lightest_covering(s, w, h, j) ==> i == j,
        forall|i: int, j: int| largest_at_all(s, i) && largest_at_all(s, j) ==> i == j,
{
}

/// Whether `i` is the inline picture with the most pixels, the last of equals.
pub open spec fn best_inline(s: Seq<SizeView>, i: int) -> bool {
    &&& 0 <= i < s.len()
    &&& s[i].complete
    &&& forall|j: int|
        0 <= j < s.len() && (#[trigger] s[j]).complete ==> area(s[j]) <= area(s[i]) && (i < j
            ==> area(s[j]) < area(s[i]))
}

/// The picture that came inside the message, if a whole one did.
pub open spec fn inline_picture(s: Seq<SizeView>) -> Option<Seq<u8>> {
    if exists|i: int| best_inline(s, i) {
        s[choose|i: int| best_inline(s, i)].inline
    } else {
        None
    }
}

/// The best inline preview, if the message brought one: it costs no request.
pub fn inline_preview(sizes: &Vec<SizeOption>) -> (r: Option<Vec<u8>>)
    ensures
        proto::bytes_opt(r) == inline_picture(proto::size_views(sizes@)),
{
    let ghost v = proto::size_views(sizes@);
    let mut best: Option<usize> = None;
    let mut i: usize = 0;
    while i < sizes.len()
        invariant
            i <= sizes.len(),
            v == proto::size_views(sizes@),
            (match best {
                Some(c) => best_inline(v.take(i as int), c as int),
                None => forall|j: int| 0 <= j < i ==> !(#[trigger] v[j]).complete,
            }),
        decreases sizes.len() - i,
    {
        let ghost before = v.take(i as int);
        let ghost after = v.take(i + 1);
        assert(v[i as int] == sizes@[i as int]@);
        assert(forall|j: int| 0 <= j < i ==> after[j] == before[j]);
        assert(after[i as int] == v[i as int]);
        if sizes[i].complete {
            let take: bool = match best {
                None => true,
                Some(c) => area_of(&sizes[i]) >= area_of(&sizes[c]),
            };
            if take {
                best = Some(i);
            }
        }
        i += 1;
    }
    assert(v.take(v.len() as int) =~= v);
    match best {
        Some(c) => {
            assert(best_inline(v, c as int));
            assert(forall|j: int| best_inline(v, j) ==> j == c);
            copy_bytes_opt(&sizes[c].inline)
        },
        None => None,
    }
}

// ---- attachments ----------------------------------------------------------------------------------

/// The attachment a parsed one becomes.
pub open spec fn media_of(m: proto::MediaView) -> MediaView {
    match m {
        proto::MediaView::Photo { id, access_hash, file_reference, dc_id, sizes } => {
            let chosen = picked(sizes, SCREEN_W, SCREEN_H);
            MediaView::Photo {
                id,
                access_hash,
                file_reference,
                dc_id,
                thumb_size: match chosen {
                    Some(s) => s.kind,
                    None => seq![],
                },
                size: match chosen {
                    Some(s) => s.size as i64,
                    None => 0,
                },
                preview: inline_picture(sizes),
            }
        },
        proto::MediaView::Sticker { id, access_hash, file_reference, dc_id, alt, thumbs } =>
            MediaView::Sticker {
            id,
            access_hash,
            file_reference,
            dc_id,
            alt,
            preview: inline_picture(thumbs),
        },
        proto::MediaView::Document {
            id,
            access_hash,
            file_reference,
            dc_id,
            filename,
            size,
            duration,
            is_voice,
            waveform,
        } => {
            let name = match filename {
                Some(n) => n,
                None => seq![],
            };
            let seconds = match duration {
                Some(d) => d,
                None => 0,
            };
            if is_voice {
                MediaView::Voice {
                    id,
                    access_hash,
                    file_reference,
                    dc_id,
                    duration: seconds,
                    waveform,
                    size,
                }
            } else if duration is Some {
                MediaView::Audio {
                    id,
                    access_hash,
                    file_reference,
                    dc_id,
                    filename: name,
                    duration: seconds,
                    size,
                }
            } else {
                MediaView::File { id, access_hash, file_reference, dc_id, filename: name, size }
            }
        },
        proto::MediaView::Unsupported => MediaView::Unknown,
    }
}

/// Turn a parsed attachment into the one the screens know.
///
/// Which size of a photo to fetch is decided here, once, against the whole list. A document is a
/// voice note by its flag and not by having a duration: a music track has one too.
pub fn media_from_proto(m: &proto::Media) -> (r: Media)
    ensures
        r@ == media_of(m@),
{
    match m {
        proto::Media::Photo { id, access_hash, file_reference, dc_id, sizes } => {
            let chosen = pick_size(sizes, SCREEN_W, SCREEN_H);
            let thumb_size = match chosen {
                Some(s) => s.kind.clone(),
                None => String::new(),
            };
            let size: i64 = match chosen {
                Some(s) => s.size as i64,
                None => 0,
            };
            Media::Photo {
                id: *id,
                access_hash: *access_hash,
                file_reference: copy_bytes(file_reference.as_slice()),
                dc_id: *dc_id,
                thumb_size,
                size,
                preview: inline_preview(sizes),
            }
        },
        proto::Media::Sticker { id, access_hash, file_reference, dc_id, alt, thumbs } =>
            Media::Sticker {
            id: *id,
            access_hash: *access_hash,
            file_reference: copy_bytes(file_reference.as_slice()),
            dc_id: *dc_id,
            alt: alt.clone(),
            preview: inline_preview(thumbs),
        },
        proto::Media::Document {
            id,
            access_hash,
            file_reference,
            dc_id,
            filename,
            size,
            duration,
            is_voice,
            waveform,
        } => {
            let name = match filename {
                Some(n) => n.clone(),
                None => String::new(),
            };
            let seconds: i32 = match duration {
                Some(d) => *d,
                None => 0,
            };
            let reference = copy_bytes(file_reference.as_slice());
            if *is_voice {
                Media::Voice {
                    id: *id,
                    access_hash: *access_hash,
                    file_reference: reference,
                    dc_id: *dc_id,
                    duration: seconds,
                    waveform: copy_bytes_opt(waveform),
                    size: *size,
                }
            } else if duration.is_some() {
                Media::Audio {
                    id: *id,
                    access_hash: *access_hash,
                    file_reference: reference,
                    dc_id: *dc_id,
                    filename: name,
                    duration: seconds,
                    size: *size,
                }
            } else {
                Media::File {
                    id: *id,
                    access_hash: *access_hash,
                    file_reference: reference,
                    dc_id: *dc_id,
                    filename: name,
                    size: *size,
                }
            }
        },
        proto::Media::Unsupported => Media::Unknown,
    }
}

// ---- the window -----------------------------------------------------------------------------------

/// A chat cut down to its newest messages, with the cursor on the oldest one still held.
pub open spec fn trimmed(c: ChatView) -> ChatView {
    let n = c.messages.len() - CHAT_WINDOW;
    if n <= 0 {
        c
    } else {
        ChatView {
            messages: c.messages.skip(n),
            windowed: true,
            oldest: c.messages[n].id,
            ..c
        }
    }
}

/// How many messages trimming drops.
pub open spec fn overflow(c: ChatView) -> int {
    if c.messages.len() > CHAT_WINDOW {
        c.messages.len() - CHAT_WINDOW
    } else {
        0
    }
}

/// Cut a chat down to the newest [`CHAT_WINDOW`] messages. Returns how many were dropped.
///
/// Also moves the pagination cursor up to the oldest message retained: left on a dropped one, the
/// next request would ask for a page above something that is not on screen.
pub fn trim_window(chat: &mut Chat) -> (dropped: usize)
    ensures
        final(chat)@ == trimmed(old(chat)@),
        dropped == overflow(old(chat)@),
{
    if chat.messages.len() <= CHAT_WINDOW {
        return 0;
    }
    let n: usize = chat.messages.len() - CHAT_WINDOW;
    let ghost before = chat@;
    let kept = chat.messages.split_off(n);
    chat.messages = kept;
    chat.windowed = true;
    chat.oldest = chat.messages[0].id;
    assert(chat@.messages =~= before.messages.skip(n as int));
    assert(chat@ =~= trimmed(before));
    n
}

/// Append a message and hold the window. Returns how many fell off the front.
///
/// A caller that tracks a position by index subtracts the return value.
pub fn push_message(chat: &mut Chat, m: Message) -> (dropped: usize)
    ensures
        final(chat)@ == trimmed(appended(old(chat)@, m@)),
        dropped == overflow(appended(old(chat)@, m@)),
{
    let ghost before = chat@;
    let ghost held = chat.messages@;
    chat.messages.push(m);
    assert(model::message_views(held.push(m)) =~= model::message_views(held).push(m@));
    assert(chat@ =~= appended(before, m@));
    trim_window(chat)
}

/// A chat with one more message at the end.
pub open spec fn appended(c: ChatView, m: MessageView) -> ChatView {
    ChatView { messages: c.messages.push(m), ..c }
}

// ---- history --------------------------------------------------------------------------------------

/// The bubble a parsed message becomes.
pub open spec fn bubble_of(m: proto::MessageView, offset: int) -> MessageView {
    MessageView {
        id: m.id,
        text: m.text,
        outgoing: m.out,
        time: clock(m.date as int, offset),
        state: if m.out {
            Delivery::Sent
        } else {
            Delivery::Read
        },
        media: match m.media {
            Some(x) => Some(media_of(x)),
            None => None,
        },
    }
}

fn bubble(m: &proto::Message, utc_offset: i32) -> (r: Message)
    ensures
        r@ == bubble_of(m@, utc_offset as int),
{
    Message {
        id: m.id,
        text: m.text.clone(),
        outgoing: m.out,
        time: hhmm(m.date as i64, utc_offset),
        state: if m.out {
            Delivery::Sent
        } else {
            Delivery::Read
        },
        media: match &m.media {
            Some(x) => Some(media_from_proto(x)),
            None => None,
        },
    }
}

/// The lowest server id among some messages. A message the server has not answered has id zero
/// and is no bound on anything.
pub open spec fn lowest(s: Seq<MessageView>) -> Option<i32>
    decreases s.len(),
{
    if s.len() == 0 {
        None
    } else {
        let rest = lowest(s.drop_last());
        let id = s.last().id;
        match rest {
            None => if id == 0 {
                None
            } else {
                Some(id)
            },
            Some(lo) => if id == 0 || lo <= id {
                Some(lo)
            } else {
                Some(id)
            },
        }
    }
}

/// The highest server id among some messages.
pub open spec fn highest(s: Seq<MessageView>) -> Option<i32>
    decreases s.len(),
{
    if s.len() == 0 {
        None
    } else {
        let rest = highest(s.drop_last());
        let id = s.last().id;
        match rest {
            None => if id == 0 {
                None
            } else {
                Some(id)
            },
            Some(hi) => if id == 0 || hi >= id {
                Some(hi)
            } else {
                Some(id)
            },
        }
    }
}

/// Whether a message with this server id is among some messages.
pub open spec fn holds(s: Seq<MessageView>, id: i32) -> bool {
    id != 0 && exists|i: int| 0 <= i < s.len() && #[trigger] s[i].id == id
}

/// Whether a message goes above what is held: it is older than all of it.
pub open spec fn goes_above(held: Seq<MessageView>, id: i32) -> bool {
    !holds(held, id) && (lowest(held) matches Some(lo) && id < lo)
}

/// Whether a message goes below what is held: it is newer than all of it, or nothing held has a
/// server id yet.
pub open spec fn goes_below(held: Seq<MessageView>, id: i32) -> bool {
    !holds(held, id) && (match highest(held) {
        Some(hi) => id > hi,
        None => true,
    })
}

/// Whether a message of a peer with this server id stands in a page.
pub open spec fn stands_in(page: Seq<proto::MessageView>, peer: i64, id: i32) -> bool {
    id != 0 && exists|i: int|
        0 <= i < page.len() && (#[trigger] page[i]).peer.id == peer && page[i].id == id
}

/// The bubbles of those messages that are from a peer and satisfy a test on their id, in reading
/// order: a page lists the newest first. A message that stood earlier in the page is not taken again.
pub open spec fn bubbles_where(
    page: Seq<proto::MessageView>,
    peer: i64,
    keep: spec_fn(i32) -> bool,
    offset: int,
) -> Seq<MessageView>
    decreases page.len(),
{
    if page.len() == 0 {
        seq![]
    } else {
        let m = page.last();
        let rest = bubbles_where(page.drop_last(), peer, keep, offset);
        if m.peer.id == peer && keep(m.id) && !stands_in(page.drop_last(), peer, m.id) {
            seq![bubble_of(m, offset)] + rest
        } else {
            rest
        }
    }
}

/// Whether a page holds any message of a peer.
pub open spec fn speaks_of(page: Seq<proto::MessageView>, peer: i64) -> bool {
    exists|i: int| 0 <= i < page.len() && (#[trigger] page[i]).peer.id == peer
}

/// Whether a page holds a message of a peer that is older than all that is held.
pub open spec fn reaches_above(
    page: Seq<proto::MessageView>,
    peer: i64,
    held: Seq<MessageView>,
) -> bool {
    exists|i: int|
        0 <= i < page.len() && (#[trigger] page[i]).peer.id == peer && goes_above(held, page[i].id)
}

/// The messages a page adds above what is held. A full chat has nowhere to put them.
pub open spec fn added_above(
    held: Seq<MessageView>,
    page: Seq<proto::MessageView>,
    peer: i64,
    offset: int,
) -> Seq<MessageView> {
    if held.len() >= CHAT_WINDOW {
        seq![]
    } else {
        bubbles_where(page, peer, |id: i32| goes_above(held, id), offset)
    }
}

/// The messages a page adds below what is held.
pub open spec fn added_below(
    held: Seq<MessageView>,
    page: Seq<proto::MessageView>,
    peer: i64,
    offset: int,
) -> Seq<MessageView> {
    bubbles_where(page, peer, |id: i32| goes_below(held, id), offset)
}

/// A chat with a page of history in it, before the window is held.
pub open spec fn with_history(
    c: ChatView,
    page: Seq<proto::MessageView>,
    peer: i64,
    offset: int,
) -> ChatView {
    let all = added_above(c.messages, page, peer, offset) + c.messages + added_below(
        c.messages,
        page,
        peer,
        offset,
    );
    ChatView {
        messages: all,
        oldest: match lowest(all) {
            Some(lo) => lo,
            None => 0,
        },
        loading: false,
        windowed: c.windowed || (c.messages.len() >= CHAT_WINDOW && reaches_above(
            page,
            peer,
            c.messages,
        )),
        ..c
    }
}

/// A chat after a page of history: marked complete by a page with nothing of it, and otherwise
/// extended at both ends and cut to the window.
pub open spec fn after_history(
    c: ChatView,
    page: Seq<proto::MessageView>,
    peer: i64,
    offset: int,
) -> ChatView {
    if !speaks_of(page, peer) {
        ChatView { loading: false, complete: true, ..c }
    } else {
        trimmed(with_history(c, page, peer, offset))
    }
}

/// How many of the messages a page adds above are still held once the window is.
pub open spec fn prepended(
    c: ChatView,
    page: Seq<proto::MessageView>,
    peer: i64,
    offset: int,
) -> int {
    if !speaks_of(page, peer) {
        0
    } else {
        let above = added_above(c.messages, page, peer, offset).len();
        let dropped = overflow(with_history(c, page, peer, offset));
        if above > dropped {
            above - dropped
        } else {
            0
        }
    }
}

fn lowest_of(s: &Vec<Message>) -> (r: Option<i32>)
    ensures
        r == lowest(model::message_views(s@)),
{
    let mut best: Option<i32> = None;
    let mut i: usize = 0;
    let ghost v = model::message_views(s@);
    while i < s.len()
        invariant
            i <= s.len(),
            v == model::message_views(s@),
            best == lowest(v.take(i as int)),
        decreases s.len() - i,
    {
        assert(v.take(i + 1).drop_last() =~= v.take(i as int));
        let id: i32 = s[i].id;
        if id != 0 {
            best = match best {
                None => Some(id),
                Some(lo) => if lo <= id {
                    Some(lo)
                } else {
                    Some(id)
                },
            };
        }
        i += 1;
    }
    assert(v.take(v.len() as int) =~= v);
    best
}

fn highest_of(s: &Vec<Message>) -> (r: Option<i32>)
    ensures
        r == highest(model::message_views(s@)),
{
    let mut best: Option<i32> = None;
    let mut i: usize = 0;
    let ghost v = model::message_views(s@);
    while i < s.len()
        invariant
            i <= s.len(),
            v == model::message_views(s@),
            best == highest(v.take(i as int)),
        decreases s.len() - i,
    {
        assert(v.take(i + 1).drop_last() =~= v.take(i as int));
        let id: i32 = s[i].id;
        if id != 0 {
            best = match best {
                None => Some(id),
                Some(hi) => if hi >= id {
                    Some(hi)
                } else {
                    Some(id)
                },
            };
        }
        i += 1;
    }
    assert(v.take(v.len() as int) =~= v);
    best
}

fn holds_id(s: &Vec<Message>, id: i32) -> (r: bool)
    ensures
        r == holds(model::message_views(s@), id),
{
    if id == 0 {
        return false;
    }
    let ghost v = model::message_views(s@);
    let mut i: usize = 0;
    while i < s.len()
        invariant
            i <= s.len(),
            id != 0,
            v == model::message_views(s@),
            forall|j: int| 0 <= j < i ==> #[trigger] v[j].id != id,
        decreases s.len() - i,
    {
        assert(v[i as int] == s@[i as int]@);
        if s[i].id == id {
            assert(v[i as int].id == id);
            return true;
        }
        i += 1;
    }
    false
}

/// Whether the message at an index stood earlier in its page.
fn repeated(page: &Vec<proto::Message>, at: usize, peer: i64) -> (r: bool)
    requires
        at < page@.len(),
    ensures
        r == stands_in(
            proto::message_views(page@).take(at as int),
            peer,
            proto::message_views(page@)[at as int].id,
        ),
{
    let ghost v = proto::message_views(page@);
    let ghost front = v.take(at as int);
    let id: i32 = page[at].id;
    assert(v[at as int] == page@[at as int]@);
    if id == 0 {
        return false;
    }
    let mut i: usize = 0;
    while i < at
        invariant
            i <= at < page.len(),
            id != 0,
            v == proto::message_views(page@),
            front == v.take(at as int),
            id == v[at as int].id,
            forall|j: int|
                0 <= j < i ==> !((#[trigger] front[j]).peer.id == peer && front[j].id == id),
        decreases at - i,
    {
        assert(front[i as int] == page@[i as int]@);
        if page[i].peer.id == peer && page[i].id == id {
            assert(front[i as int].peer.id == peer && front[i as int].id == id);
            return true;
        }
        i += 1;
    }
    false
}

/// Append some messages to a vector, the last of them first.
fn push_reversed(into: &mut Vec<Message>, from: Vec<Message>)
    ensures
        model::message_views(final(into)@) == model::message_views(old(into)@)
            + model::message_views(from@).reverse(),
{
    let ghost start = model::message_views(into@);
    let ghost all = model::message_views(from@);
    let mut rest = from;
    while rest.len() > 0
        invariant
            rest@.len() <= all.len(),
            model::message_views(rest@) =~= all.take(rest@.len() as int),
            model::message_views(into@) =~= start + all.skip(rest@.len() as int).reverse(),
        decreases rest.len(),
    {
        let ghost k = rest@.len() as int;
        let ghost held = into@;
        let ghost left = rest@;
        if let Some(m) = rest.pop() {
            assert(model::message_views(left)[k - 1] == all[k - 1]);
            into.push(m);
            assert(model::message_views(held.push(m)) =~= model::message_views(held).push(m@));
            assert(all.skip(k - 1).reverse() =~= all.skip(k).reverse().push(all[k - 1]));
            assert(model::message_views(rest@) =~= all.take(k - 1));
        }
    }
    assert(all.skip(0) =~= all);
}

/// Fold a page of history into a chat, in order and without losing or repeating anything.
///
/// A page is placed by message id rather than assumed to be older than everything held: a refresh
/// asks from the newest end and overlaps what is on screen. One that lists a message twice brings it
/// once. Returns how many messages were put in
/// front and kept, which is what a caller shifts its selection by.
pub fn merge_history(
    chat: &mut Chat,
    page: &proto::Dialogs,
    peer: PeerRef,
    utc_offset: i32,
) -> (shift: usize)
    ensures
        final(chat)@ == after_history(old(chat)@, page@.messages, peer.id, utc_offset as int),
        shift == prepended(old(chat)@, page@.messages, peer.id, utc_offset as int),
{
    let ghost before = chat@;
    let ghost held = chat@.messages;
    let ghost msgs = page@.messages;
    let ghost off = utc_offset as int;
    let held_lo = lowest_of(&chat.messages);
    let held_hi = highest_of(&chat.messages);
    proof {
        lemma_low_below_high(held);
    }
    let full: bool = chat.messages.len() >= CHAT_WINDOW;
    let mut any: bool = false;
    let mut above: bool = false;
    let mut older: Vec<Message> = Vec::new();
    let mut newer: Vec<Message> = Vec::new();
    let ghost up = |id: i32| goes_above(held, id);
    let ghost down = |id: i32| goes_below(held, id);
    let mut i: usize = 0;
    while i < page.messages.len()
        invariant
            i <= page.messages.len(),
            msgs == page@.messages,
            msgs.len() == page.messages@.len(),
            chat@ == before,
            held == before.messages,
            off == utc_offset,
            held_lo == lowest(held),
            held_hi == highest(held),
            held_lo is Some == held_hi is Some,
            held_lo is Some ==> held_lo->0 <= held_hi->0,
            full == (held.len() >= CHAT_WINDOW),
            up == (|id: i32| goes_above(held, id)),
            down == (|id: i32| goes_below(held, id)),
            any == speaks_of(msgs.take(i as int), peer.id),
            above == reaches_above(msgs.take(i as int), peer.id, held),
            full ==> older@.len() == 0,
            !full ==> model::message_views(older@).reverse() =~= bubbles_where(
                msgs.take(i as int),
                peer.id,
                up,
                off,
            ),
            model::message_views(newer@).reverse() =~= bubbles_where(
                msgs.take(i as int),
                peer.id,
                down,
                off,
            ),
        decreases page.messages.len() - i,
    {
        let m = &page.messages[i];
        let ghost so_far = msgs.take(i as int);
        let ghost now = msgs.take(i + 1);
        assert(now.drop_last() =~= so_far);
        assert(now.last() == m@);
        assert(forall|j: int| 0 <= j < i ==> now[j] == so_far[j]);
        if m.peer.id == peer.id {
            any = true;
            assert(now[i as int].peer.id == peer.id);
            if !holds_id(&chat.messages, m.id) && !repeated(&page.messages, i, peer.id) {
                let (is_above, is_below): (bool, bool) = match held_lo {
                    Some(lo) => match held_hi {
                        Some(hi) => (m.id < lo, m.id > hi),
                        None => (false, false),
                    },
                    None => (false, true),
                };
                if is_above {
                    above = true;
                    assert(goes_above(held, now[i as int].id));
                    if !full {
                        let b = bubble(m, utc_offset);
                        let ghost o = older@;
                        older.push(b);
                        assert(model::message_views(older@) =~= model::message_views(o).push(b@));
                        assert(model::message_views(older@).reverse() =~= seq![b@] + model::message_views(
                            o,
                        ).reverse());
                    }
                } else if is_below {
                    let b = bubble(m, utc_offset);
                    let ghost o = newer@;
                    newer.push(b);
                    assert(model::message_views(newer@) =~= model::message_views(o).push(b@));
                    assert(model::message_views(newer@).reverse() =~= seq![b@] + model::message_views(
                        o,
                    ).reverse());
                }
            }
        }
        i += 1;
    }
    assert(msgs.take(msgs.len() as int) =~= msgs);
    chat.loading = false;
    if !any {
        chat.complete = true;
        assert(chat@ =~= after_history(before, msgs, peer.id, off));
        return 0;
    }
    if full && above {
        chat.windowed = true;
    }
    let count: usize = older.len();
    let mut all: Vec<Message> = Vec::new();
    push_reversed(&mut all, older);
    let ghost first = all@;
    let mut mine: Vec<Message> = Vec::new();
    std::mem::swap(&mut mine, &mut chat.messages);
    all.append(&mut mine);
    assert(model::message_views(all@) =~= model::message_views(first) + held);
    push_reversed(&mut all, newer);
    let low: i32 = match lowest_of(&all) {
        Some(lo) => lo,
        None => 0,
    };
    chat.messages = all;
    chat.oldest = low;
    assert(chat@.messages =~= with_history(before, msgs, peer.id, off).messages);
    assert(chat@ =~= with_history(before, msgs, peer.id, off));
    let dropped: usize = trim_window(chat);
    count.saturating_sub(dropped)
}

/// The lowest server id is no higher than the highest.
proof fn lemma_low_below_high(s: Seq<MessageView>)
    ensures
        (lowest(s) matches Some(lo) && highest(s) matches Some(hi)) ==> lowest(s)->0
            <= highest(s)->0,
        lowest(s) is Some == highest(s) is Some,
    decreases s.len(),
{
    if s.len() > 0 {
        lemma_low_below_high(s.drop_last());
    }
}

// ---- dialogs --------------------------------------------------------------------------------------

/// The title a page gives a peer: the first that names it.
pub open spec fn title_of(names: Seq<(Peer, Seq<char>)>, peer: Peer) -> Seq<char>
    decreases names.len(),
{
    if names.len() == 0 {
        "(sem nome)"@
    } else if names[0].0 == peer {
        names[0].1
    } else {
        title_of(names.skip(1), peer)
    }
}

fn title(names: &Vec<Named>, peer: Peer) -> (r: String)
    ensures
        r@ == title_of(proto::name_views(names@), peer),
{
    let ghost v = proto::name_views(names@);
    let mut i: usize = 0;
    assert(v.skip(0) =~= v);
    while i < names.len()
        invariant
            i <= names.len(),
            v == proto::name_views(names@),
            title_of(v, peer) == title_of(v.skip(i as int), peer),
        decreases names.len() - i,
    {
        assert(v.skip(i as int)[0] == v[i as int]);
        assert(v.skip(i as int).skip(1) =~= v.skip(i + 1));
        let n = &names[i];
        if n.peer == peer {
            return n.title.clone();
        }
        i += 1;
    }
    "(sem nome)".to_owned()
}

/// The peer of a dialog, in the form a request takes.
pub open spec fn peer_of(d: DialogView) -> PeerRef {
    PeerRef { kind: d.peer.kind, id: d.peer.id, access_hash: d.access_hash }
}

/// The row a dialog becomes.
pub open spec fn row_of(d: DialogView, names: Seq<(Peer, Seq<char>)>, offset: int) -> ChatView {
    let date = match d.top {
        Some(m) => m.date as int,
        None => 0,
    };
    ChatView {
        peer: Some(peer_of(d)),
        oldest: d.top_message,
        name: title_of(names, d.peer),
        time: clock(date, offset),
        unread: if d.unread > 0 {
            d.unread as u32
        } else {
            0
        },
        last_outgoing: match d.top {
            Some(m) => m.out,
            None => false,
        },
        messages: match d.top {
            Some(m) => seq![bubble_of(m, offset)],
            None => seq![],
        },
        ..model::empty_chat()
    }
}

fn row(d: &Dialog, names: &Vec<Named>, utc_offset: i32) -> (r: Chat)
    ensures
        r@ == row_of(d@, proto::name_views(names@), utc_offset as int),
{
    let ghost off = utc_offset as int;
    let mut messages: Vec<Message> = Vec::new();
    let (date, outgoing): (i32, bool) = match &d.top {
        Some(m) => {
            messages.push(bubble(m, utc_offset));
            (m.date, m.out)
        },
        None => (0, false),
    };
    let r = Chat {
        peer: Some(PeerRef { kind: d.peer.kind, id: d.peer.id, access_hash: d.access_hash }),
        oldest: d.top_message,
        complete: false,
        windowed: false,
        loading: false,
        name: title(names, d.peer),
        time: hhmm(date as i64, utc_offset),
        unread: if d.unread > 0 {
            d.unread as u32
        } else {
            0
        },
        last_outgoing: outgoing,
        messages,
    };
    assert(r@ =~= row_of(d@, proto::name_views(names@), off));
    r
}

/// The rows of some dialogs, in order.
pub open spec fn rows_of(
    d: Seq<DialogView>,
    names: Seq<(Peer, Seq<char>)>,
    offset: int,
) -> Seq<ChatView> {
    Seq::new(d.len(), |i: int| row_of(d[i], names, offset))
}

/// A store whose next page starts after the last dialog of this one.
pub open spec fn with_offsets(s: StoreView, d: Seq<DialogView>) -> StoreView {
    if d.len() == 0 {
        s
    } else {
        let last = d.last();
        StoreView {
            dialog_offset_date: match last.top {
                Some(m) => m.date,
                None => 0,
            },
            dialog_offset_id: last.top_message,
            dialog_offset_peer: Some(peer_of(last)),
            ..s
        }
    }
}

fn set_offsets(store: &mut Store, d: &Vec<Dialog>)
    ensures
        final(store)@ == with_offsets(old(store)@, proto::dialog_views(d@)),
{
    let ghost before = store@;
    if d.len() > 0 {
        let last = &d[d.len() - 1];
        store.dialog_offset_date = match &last.top {
            Some(m) => m.date,
            None => 0,
        };
        store.dialog_offset_id = last.top_message;
        store.dialog_offset_peer = Some(
            PeerRef { kind: last.peer.kind, id: last.peer.id, access_hash: last.access_hash },
        );
    }
    assert(store@ =~= with_offsets(before, proto::dialog_views(d@)));
}

/// The first page of dialogs as a store: as many rows as the list holds, complete when the server
/// sent everything or when the list is full.
pub open spec fn first_store(page: PageView, offset: int) -> StoreView {
    let n = if page.dialogs.len() < DIALOG_LIMIT {
        page.dialogs.len() as int
    } else {
        DIALOG_LIMIT as int
    };
    with_offsets(
        StoreView {
            chats: rows_of(page.dialogs, page.names, offset).take(n),
            dialogs_complete: page.total is None || n >= DIALOG_LIMIT,
            ..model::empty_store()
        },
        page.dialogs,
    )
}

/// Turn a parsed first page of dialogs into what the chat list draws.
pub fn store_from_dialogs(d: &proto::Dialogs, _now: i64, utc_offset: i32) -> (r: Store)
    ensures
        r@ == first_store(d@, utc_offset as int),
{
    let ghost off = utc_offset as int;
    let ghost rows = rows_of(d@.dialogs, d@.names, off);
    let mut store = Store::default();
    let mut i: usize = 0;
    assert(store@.chats =~= rows.take(0));
    while i < d.dialogs.len() && i < DIALOG_LIMIT
        invariant
            i <= d.dialogs.len(),
            i <= DIALOG_LIMIT,
            off == utc_offset,
            rows == rows_of(d@.dialogs, d@.names, off),
            store@ =~= (StoreView { chats: rows.take(i as int), ..model::empty_store() }),
        decreases d.dialogs.len() - i,
    {
        let ghost held = store.chats@;
        let c = row(&d.dialogs[i], &d.names, utc_offset);
        store.chats.push(c);
        assert(model::chat_views(held.push(c)) =~= model::chat_views(held).push(c@));
        assert(rows[i as int] == c@);
        i += 1;
        assert(rows.take(i as int) =~= rows.take(i - 1).push(rows[i - 1]));
    }
    store.dialogs_complete = d.total.is_none() || store.chats.len() >= DIALOG_LIMIT;
    let ghost n = if d@.dialogs.len() < DIALOG_LIMIT {
        d@.dialogs.len() as int
    } else {
        DIALOG_LIMIT as int
    };
    assert(i == n);
    assert(store@.chats =~= rows.take(n));
    assert(store@.chats.len() == n);
    assert(store.chats@.len() == n);
    assert(store@.dialogs_complete == (d@.total is None || n >= DIALOG_LIMIT));
    assert(store@.status == model::empty_store().status);
    assert(store@ =~= (StoreView {
        chats: rows.take(n),
        dialogs_complete: d@.total is None || n >= DIALOG_LIMIT,
        ..model::empty_store()
    }));
    set_offsets(&mut store, &d.dialogs);
    store
}

/// Whether a peer already has a row.
pub open spec fn listed(chats: Seq<ChatView>, peer: Peer) -> bool {
    exists|i: int|
        0 <= i < chats.len() && (#[trigger] chats[i].peer matches Some(p) && p.kind == peer.kind
            && p.id == peer.id)
}

fn is_listed(chats: &Vec<Chat>, peer: Peer) -> (r: bool)
    ensures
        r == listed(model::chat_views(chats@), peer),
{
    let ghost v = model::chat_views(chats@);
    let mut i: usize = 0;
    while i < chats.len()
        invariant
            i <= chats.len(),
            v == model::chat_views(chats@),
            forall|j: int|
                0 <= j < i ==> !(#[trigger] v[j].peer matches Some(p) && p.kind == peer.kind && p.id
                    == peer.id),
        decreases chats.len() - i,
    {
        assert(v[i as int].peer == chats@[i as int].peer);
        if let Some(p) = chats[i].peer {
            if p.kind == peer.kind && p.id == peer.id {
                return true;
            }
        }
        i += 1;
    }
    false
}

/// The list after some dialogs: each one not listed yet gets a row, until the list is full.
pub open spec fn extended(
    chats: Seq<ChatView>,
    d: Seq<DialogView>,
    names: Seq<(Peer, Seq<char>)>,
    offset: int,
) -> Seq<ChatView>
    decreases d.len(),
{
    if d.len() == 0 || chats.len() >= DIALOG_LIMIT {
        chats
    } else if listed(chats, d[0].peer) {
        extended(chats, d.skip(1), names, offset)
    } else {
        extended(chats.push(row_of(d[0], names, offset)), d.skip(1), names, offset)
    }
}

/// Whether the list is full with dialogs still to look at.
pub open spec fn refuses(
    chats: Seq<ChatView>,
    d: Seq<DialogView>,
    names: Seq<(Peer, Seq<char>)>,
    offset: int,
) -> bool
    decreases d.len(),
{
    if d.len() == 0 {
        false
    } else if chats.len() >= DIALOG_LIMIT {
        true
    } else if listed(chats, d[0].peer) {
        refuses(chats, d.skip(1), names, offset)
    } else {
        refuses(chats.push(row_of(d[0], names, offset)), d.skip(1), names, offset)
    }
}

/// The store after a further page of dialogs. The list ends where a page told nothing new or was
/// refused.
pub open spec fn after_dialogs(s: StoreView, page: PageView, offset: int) -> StoreView {
    let chats = extended(s.chats, page.dialogs, page.names, offset);
    with_offsets(
        StoreView {
            chats,
            dialogs_loading: false,
            dialogs_complete: s.dialogs_complete || chats.len() == s.chats.len() || refuses(
                s.chats,
                page.dialogs,
                page.names,
                offset,
            ),
            ..s
        },
        page.dialogs,
    )
}

/// Append a page of dialogs to the chat list. Returns how many chats were added.
///
/// A dialog already listed is skipped: the offset a page is asked from is only as good as the page
/// before it, and a server that reads it as "from the beginning" answers with the first page
/// again. Keyed by peer and not by name, which two people can share. The end of the list is a page
/// that told nothing new, which covers an empty page too.
pub fn merge_dialogs(
    store: &mut Store,
    d: &proto::Dialogs,
    _now: i64,
    utc_offset: i32,
) -> (added: usize)
    ensures
        final(store)@ == after_dialogs(old(store)@, d@, utc_offset as int),
        added == extended(old(store)@.chats, d@.dialogs, d@.names, utc_offset as int).len()
            - old(store)@.chats.len(),
{
    let ghost before = store@;
    let ghost off = utc_offset as int;
    let ghost all = d@.dialogs;
    let ghost names = d@.names;
    let mut added: usize = 0;
    let mut full: bool = false;
    let mut i: usize = 0;
    assert(all.skip(0) =~= all);
    while i < d.dialogs.len() && !full
        invariant
            i <= d.dialogs.len(),
            all == d@.dialogs,
            names == d@.names,
            off == utc_offset,
            !full ==> extended(before.chats, all, names, off) == extended(
                store@.chats,
                all.skip(i as int),
                names,
                off,
            ),
            !full ==> refuses(before.chats, all, names, off) == refuses(
                store@.chats,
                all.skip(i as int),
                names,
                off,
            ),
            full ==> extended(before.chats, all, names, off) == store@.chats && refuses(
                before.chats,
                all,
                names,
                off,
            ),
            store@.chats.len() == before.chats.len() + added,
            added <= i,
            store@ =~= (StoreView { chats: store@.chats, ..before }),
        decreases d.dialogs.len() - i, (if full {
                0int
            } else {
                1int
            }),
    {
        let dialog = &d.dialogs[i];
        let ghost rest = all.skip(i as int);
        assert(rest[0] == dialog@);
        assert(rest.skip(1) =~= all.skip(i + 1));
        if store.chats.len() >= DIALOG_LIMIT {
            full = true;
        } else {
            if !is_listed(&store.chats, dialog.peer) {
                let ghost held = store.chats@;
                let c = row(dialog, &d.names, utc_offset);
                store.chats.push(c);
                assert(model::chat_views(held.push(c)) =~= model::chat_views(held).push(c@));
                added += 1;
            }
            i += 1;
        }
    }
    store.dialogs_loading = false;
    if full || added == 0 {
        store.dialogs_complete = true;
    }
    let ghost mid = store@;
    set_offsets(store, &d.dialogs);
    assert(all.skip(all.len() as int).len() == 0);
    assert(store@ =~= after_dialogs(before, d@, off));
    added
}

/// Replace the attachment of a message with a fresh one, whose file reference is valid again.
/// Returns whether a message with that id was there and the fresh one carries an attachment.
pub fn refresh_media(chat: &mut Chat, msg_id: i32, fresh: &proto::Message) -> (r: bool)
    ensures
        final(chat)@ == refreshed(old(chat)@, msg_id, fresh@),
        r == (fresh@.media is Some && exists|i: int|
            0 <= i < old(chat)@.messages.len() && #[trigger] old(chat)@.messages[i].id == msg_id),
{
    let ghost before = chat@;
    let media = match &fresh.media {
        Some(m) => media_from_proto(m),
        None => {
            return false;
        },
    };
    match find_id(&chat.messages, msg_id) {
        Some(i) => {
            let ghost held = chat.messages@;
            chat.messages[i].media = Some(media);
            assert(before.messages[i as int].id == msg_id);
            assert(chat.messages@[i as int]@ == (MessageView {
                media: Some(media@),
                ..before.messages[i as int]
            }));
            assert(chat@.messages =~= before.messages.update(
                i as int,
                MessageView { media: Some(media@), ..before.messages[i as int] },
            ));
            assert(chat@ =~= refreshed(before, msg_id, fresh@));
            true
        },
        None => false,
    }
}

/// The first message with an id.
pub fn find_id(s: &Vec<Message>, id: i32) -> (r: Option<usize>)
    ensures
        (match r {
            Some(i) => first_with_id(model::message_views(s@), id, i as int) && forall|k: int|
                first_with_id(model::message_views(s@), id, k) ==> k == i,
            None => forall|k: int|
                0 <= k < s@.len() ==> #[trigger] model::message_views(s@)[k].id != id,
        }),
{
    let ghost v = model::message_views(s@);
    let mut i: usize = 0;
    while i < s.len()
        invariant
            i <= s.len(),
            v == model::message_views(s@),
            forall|j: int| 0 <= j < i ==> #[trigger] v[j].id != id,
        decreases s.len() - i,
    {
        assert(v[i as int] == s@[i as int]@);
        if s[i].id == id {
            assert forall|k: int| first_with_id(v, id, k) implies k == i by {
                assert(v[k].id == id && v[i as int].id == id);
            }
            return Some(i);
        }
        i += 1;
    }
    None
}

/// Whether `i` is the first message with an id.
pub open spec fn first_with_id(s: Seq<MessageView>, id: i32, i: int) -> bool {
    &&& 0 <= i < s.len()
    &&& s[i].id == id
    &&& forall|j: int| 0 <= j < i ==> #[trigger] s[j].id != id
}

/// A chat whose first message with an id carries the attachment of a fresh one.
pub open spec fn refreshed(c: ChatView, id: i32, fresh: proto::MessageView) -> ChatView {
    if fresh.media is Some && (exists|i: int| first_with_id(c.messages, id, i)) {
        let i = choose|i: int| first_with_id(c.messages, id, i);
        ChatView {
            messages: c.messages.update(
                i,
                MessageView { media: Some(media_of(fresh.media->0)), ..c.messages[i] },
            ),
            ..c
        }
    } else {
        c
    }
}

} // verus!
