//! What holds of the application as a whole.

use crate::app;
use crate::app::{
    AppView, Decoded, DoView, PendingView, Press, RequestView, ScreenView, WantedView, CHUNK,
    MAX_FILE_BYTES,
};
use crate::cache_files;
use crate::conv;
use crate::conv::{ConvActionView, ConvView};
use crate::driver::Outcome;
use crate::model::{ChatView, Delivery, MediaKind, PeerRef};
use crate::pages;
use crate::proto;
use crate::ui::{Answer, Handled, Key, ListState, Softkey};
use vstd::prelude::*;

verus! {

/// Opening a chat clears its unread count, and leaves every other chat alone.
pub proof fn opening_clears_the_unread_count(s: AppView, i: usize, file: Option<Seq<u8>>, k: int)
    requires
        i < s.store.chats.len(),
        0 <= k < s.store.chats.len(),
    ensures
        app::opening(s, i, file).0.store.chats[i as int].unread == 0,
        k != i ==> app::opening(s, i, file).0.store.chats[k] == s.store.chats[k],
        app::opening(s, i, file).0.store.chats.len() == s.store.chats.len(),
{
}

/// Leaving a conversation lands on the chat it was opened from, not on the top of the list.
pub proof fn leaving_keeps_the_place(
    s: AppView,
    c: ConvView,
    glyphs: Seq<char>,
    answer: Answer,
    time: Seq<char>,
)
    requires
        s.screen == ScreenView::Conversation(c),
        c.chat < s.store.chats.len(),
    ensures
        app::conv_keyed(s, c, Key::Softkey(Softkey::Right), glyphs, answer, time).0.screen
            == ScreenView::Chats(ListState { selected: c.chat, scroll: 0 }),
{
}

/// A conversation that is on disk opens at once; without one, a connected application stays where it
/// is until the first page comes, and then shows it.
pub proof fn a_conversation_opens_when_there_is_something_to_show(
    s: AppView,
    i: usize,
    file: Option<Seq<u8>>,
)
    requires
        i < s.store.chats.len(),
    ensures
        ({
            let restored = cache_files::refills(
                ChatView { unread: 0, ..s.store.chats[i as int] },
                file,
            );
            let n = app::opening(s, i, file).0;
            if restored || s.driver is None {
                n.screen == ScreenView::Conversation(conv::opened(i)) && n.opening_chat
                    == s.opening_chat
            } else {
                n.screen == s.screen && n.opening_chat == Some(i)
            }
        }),
{
}

/// The page a conversation was waiting for shows it.
pub proof fn the_first_page_opens_the_conversation(
    s: AppView,
    i: usize,
    page: proto::Dialogs,
    offset: int,
)
    requires
        s.opening_chat == Some(i),
        s.peer(i) is Some,
    ensures
        ({
            let n = app::history_came(s, i, Some(page), offset).0;
            &&& n.opening_chat is None
            &&& n.screen matches ScreenView::Conversation(c) && c.chat == i
        }),
{
}

/// A page put above the cursor does not carry the reader away: the bubble that was selected is
/// selected still, as long as it is kept and no more was dropped than was put above.
pub proof fn the_reader_stays_on_the_same_bubble(
    s: AppView,
    c: ConvView,
    page: proto::Dialogs,
    offset: int,
)
    requires
        s.screen == ScreenView::Conversation(c),
        s.opening_chat != Some(c.chat),
        s.peer(c.chat) is Some,
        c.state.selected < s.store.chats[c.chat as int].messages.len(),
        s.store.chats[c.chat as int].messages.len() + page@.messages.len() < usize::MAX,
        ({
            let h = s.store.chats[c.chat as int];
            let peer = s.peer(c.chat)->0.id;
            pages::overflow(pages::with_history(h, page@.messages, peer, offset))
                <= pages::added_above(h.messages, page@.messages, peer, offset).len()
        }),
    ensures
        ({
            let n = app::history_came(s, c.chat, Some(page), offset).0;
            &&& n.screen matches ScreenView::Conversation(v)
                && v.state.selected < n.store.chats[c.chat as int].messages.len()
                && n.store.chats[c.chat as int].messages[v.state.selected as int]
                == s.store.chats[c.chat as int].messages[c.state.selected as int]
        }),
{
    let h = s.store.chats[c.chat as int];
    let peer = s.peer(c.chat)->0.id;
    let p = page@.messages;
    if pages::speaks_of(p, peer) {
        let above = pages::added_above(h.messages, p, peer, offset);
        let all = pages::with_history(h, p, peer, offset);
        let dropped = pages::overflow(all);
        lemma_bubbles_len(p, peer, |id: i32| pages::goes_above(h.messages, id), offset);
        assert(above.len() <= p.len());
        let at = c.state.selected + above.len();
        assert(all.messages[at] == h.messages[c.state.selected as int]);
        let kept = pages::trimmed(all);
        assert(kept.messages[at - dropped] == all.messages[at]);
    }
}

proof fn lemma_bubbles_len(
    page: Seq<proto::MessageView>,
    peer: i64,
    keep: spec_fn(i32) -> bool,
    offset: int,
)
    ensures
        pages::bubbles_where(page, peer, keep, offset).len() <= page.len(),
    decreases page.len(),
{
    reveal_with_fuel(pages::bubbles_where, 2);
    if page.len() > 0 {
        lemma_bubbles_len(page.drop_last(), peer, keep, offset);
        lemma_bubbles_len(page.drop_first(), peer, keep, offset);
    }
}

/// A page that was asked for from the top replaces the list; one from below never touches what is
/// above it.
pub proof fn a_page_from_the_top_replaces_the_list(s: AppView, page: proto::Dialogs, offset: int)
    requires
        s.dialogs_from_top,
    ensures
        app::dialogs_came(s, Some(page), offset).0.store.chats == pages::first_store(
            page@,
            offset,
        ).chats,
        app::dialogs_came(s, Some(page), offset).0.store.status == s.store.status,
        !app::dialogs_came(s, Some(page), offset).0.dialogs_from_top,
{
}

/// What the list says is what the next launch opens with: every page that is read is written.
pub proof fn a_page_that_is_read_is_written(s: AppView, page: proto::Dialogs, offset: int)
    ensures
        app::dialogs_came(s, Some(page), offset).1 == app::list_written(
            app::dialogs_came(s, Some(page), offset).0,
        ),
{
}

/// A page that did not parse stops the list from claiming to load.
pub proof fn a_page_that_does_not_parse_ends_the_wait(s: AppView, offset: int, i: usize)
    ensures
        !app::dialogs_came(s, None, offset).0.store.dialogs_loading,
        s.peer(i) is Some ==> !app::history_came(s, i, None, offset).0.store.chats[i as int].loading
            && app::history_came(s, i, None, offset).0.store.chats[i as int].complete,
{
}

/// While a page is in flight no other is asked for, and a list that is whole asks for none.
pub proof fn one_page_at_a_time(s: AppView, i: usize)
    ensures
        s.store.dialogs_loading ==> app::more_dialogs(s).1 is None && app::top_dialogs(s).1 is None,
        s.store.dialogs_complete ==> app::more_dialogs(s).1 is None,
        s.chat(i) matches Some(c) && (c.loading || c.complete || c.windowed) ==> app::older(s, i).1
            is None,
        s.chat(i) matches Some(c) && c.loading ==> app::newest(s, i, true).1 is None,
{
}

/// A message that is sent is the last of its conversation at once, outgoing, with the ticks of one
/// that waits; and it says so when it could not be handed on.
pub proof fn a_sent_message_shows_at_once(
    s: AppView,
    i: usize,
    words: Seq<char>,
    accepted: bool,
    time: Seq<char>,
)
    requires
        i < s.store.chats.len(),
    ensures
        ({
            let c = app::posted(s, i, words, accepted, time).store.chats[i as int];
            &&& c.messages.len() > 0
            &&& c.messages.len() <= pages::CHAT_WINDOW
            &&& c.messages.last().text == words
            &&& c.messages.last().outgoing
            &&& c.last_outgoing
            &&& c.messages.last().state == (if s.driver is Some && !accepted {
                Delivery::Failed
            } else {
                Delivery::Pending
            })
            &&& s.store.chats[i as int].messages.len() < pages::CHAT_WINDOW ==> c.messages
                == s.store.chats[i as int].messages.push(c.messages.last())
        }),
{
    let c = s.store.chats[i as int];
    let state = if s.driver is Some && !accepted {
        Delivery::Failed
    } else {
        Delivery::Pending
    };
    let all = pages::appended(c, app::own_message(words, time, state));
    let kept = pages::trimmed(all);
    assert(kept.messages.last() == all.messages.last());
}

/// An acknowledgement promotes the last message that waits, and nothing else.
pub proof fn an_acknowledgement_promotes_one_message(c: ChatView, k: int)
    requires
        0 <= k < c.messages.len(),
    ensures
        ({
            let n = app::acknowledged(c);
            &&& n.messages.len() == c.messages.len()
            &&& app::last_pending(c.messages) == Some(k) ==> n.messages[k].state == Delivery::Sent
                && n.messages[k].text == c.messages[k].text
            &&& app::last_pending(c.messages) != Some(k) ==> n.messages[k] == c.messages[k]
            &&& c.messages[k].state == Delivery::Pending ==> app::last_pending(c.messages) is Some
        }),
{
    lemma_last_pending_in_range(c.messages, k);
}

proof fn lemma_last_pending_in_range(m: Seq<crate::model::MessageView>, k: int)
    requires
        0 <= k < m.len(),
    ensures
        app::last_pending(m) matches Some(j) ==> 0 <= j < m.len(),
        m[k].state == Delivery::Pending ==> app::last_pending(m) is Some,
    decreases m.len(),
{
    if m.last().state != Delivery::Pending && m.len() > 1 {
        if k < m.len() - 1 {
            assert(m.drop_last()[k] == m[k]);
            lemma_last_pending_in_range(m.drop_last(), k);
        } else {
            lemma_last_pending_in_range(m.drop_last(), 0);
        }
    } else if m.len() == 1 {
        let none = m.drop_last();
        assert(none.len() == 0);
        assert(app::last_pending(none) is None);
    }
}

/// Chunks are put together in the order they came, and each is asked for from where the one before
/// ended.
pub proof fn chunks_are_put_together_in_order(s: AppView, p: PendingView, b: Seq<u8>)
    requires
        s.pending == Some(p),
        s.driver is Some,
        b.len() == CHUNK,
        p.got.len() + b.len() <= MAX_FILE_BYTES,
    ensures
        app::chunk_came(s, Some(b)).1 == seq![
            DoView::Ask(
                WantedView::Next(
                    PendingView {
                        req: RequestView { offset: (p.got.len() + b.len()) as i64, ..p.req },
                        got: p.got + b,
                        ..p
                    },
                ),
            ),
        ],
{
}

/// No download outgrows its cap: one that would is given up, and nothing more is asked for.
pub proof fn a_download_is_bounded(s: AppView, p: PendingView, b: Seq<u8>)
    requires
        s.pending == Some(p),
    ensures
        p.got.len() + b.len() > MAX_FILE_BYTES ==> app::chunk_came(s, Some(b)).1.len() == 0
            && app::chunk_came(s, Some(b)).0.pending is None,
        app::chunk_came(s, Some(b)).1.len() > 0 ==> (app::chunk_came(s, Some(b)).1.last()
            matches DoView::Ask(WantedView::Next(q)) ==> q.got.len() <= MAX_FILE_BYTES
            && q.req.offset == q.got.len()),
{
    let fx = app::chunk_came(s, Some(b)).1;
    if p.got.len() + b.len() <= MAX_FILE_BYTES && b.len() != CHUNK {
        let n = AppView { pending: None, ..s };
        if p.kind == MediaKind::Photo {
            assert(fx == app::decoding(n, p.req.chat, Some(p.req.id), p.got + b).1);
        }
    }
}

/// A file that has come whole goes where its kind says: only a photo is decoded, and everything else
/// is kept, so that opening it again costs nothing on the wire.
pub proof fn only_a_photo_is_decoded(s: AppView, p: PendingView, b: Seq<u8>)
    requires
        s.pending == Some(p),
        b.len() != CHUNK,
        p.got.len() + b.len() <= MAX_FILE_BYTES,
    ensures
        p.kind != MediaKind::Photo ==> app::chunk_came(s, Some(b)).1 == seq![
            DoView::Keep { id: p.req.id, data: p.got + b },
        ],
        p.kind == MediaKind::Photo ==> app::chunk_came(s, Some(b)).1.last() == (DoView::Decode {
            chat: p.req.chat,
            id: p.req.id,
            data: p.got + b,
        }),
{
}

/// Two downloads are never in flight: while one is, a press asks the server for nothing.
pub proof fn one_download_at_a_time(s: AppView, i: usize, message: usize)
    requires
        s.pending is Some,
    ensures
        app::looked_up(s, i, message, None).1.len() == 0,
        app::looked_up(s, i, message, None).0.pending == s.pending,
{
}

/// A sticker is never fetched, and neither is anything before the media cache was looked into.
pub proof fn a_press_looks_at_home_first(s: AppView, i: usize, message: usize)
    ensures
        forall|k: int|
            0 <= k < app::downloading(s, i, message).1.len() ==> !(#[trigger] app::downloading(
                s,
                i,
                message,
            ).1[k] is Ask),
        app::media_at(s, i, message) matches Some(m) && m is Sticker ==> forall|k: int|
            0 <= k < app::downloading(s, i, message).1.len() ==> #[trigger] app::downloading(
                s,
                i,
                message,
            ).1[k] is ReleaseDecoder,
{
}

/// A preview is never stored under the key of its photo, or the media cache would serve a thumbnail
/// ever after.
pub proof fn a_preview_is_not_kept_as_the_photo(s: AppView, i: usize, data: Seq<u8>, k: int)
    requires
        0 <= k < app::decoding(s, i, None, data).1.len(),
    ensures
        app::decoding(s, i, None, data).1[k] is ReleaseDecoder,
{
}

/// A download the server sends elsewhere keeps what has come, and goes on from there.
pub proof fn a_download_that_moves_keeps_its_bytes(
    s: AppView,
    p: PendingView,
    tag: u32,
    words: Seq<char>,
    dc: u8,
)
    requires
        s.pending == Some(p),
        s.driver is Some,
        !crate::text::has_prefix(words, "FILE_REFERENCE_EXPIRED"@),
        p.got.len() <= MAX_FILE_BYTES,
    ensures
        ({
            let (n, fx) = app::file_refused(s, tag, words, Some(dc));
            &&& n.pending matches Some(q) && q.got == p.got && q.dc == dc && q.req.offset
                == p.got.len()
            &&& n.login == s.login && n.driver == s.driver
            &&& fx == seq![DoView::Ask(WantedView::Elsewhere { req: n.pending->0.req, dc })]
        }),
{
}

/// An expired reference makes the message of the download be read again, whichever chat is in front.
pub proof fn an_expired_reference_is_refreshed(
    s: AppView,
    p: PendingView,
    peer: PeerRef,
    tag: u32,
    words: Seq<char>,
    elsewhere: Option<u8>,
)
    requires
        s.pending == Some(p),
        s.driver is Some,
        s.peer(p.req.chat) == Some(peer),
        crate::text::has_prefix(words, "FILE_REFERENCE_EXPIRED"@),
    ensures
        app::file_refused(s, tag, words, elsewhere).1 == seq![
            DoView::Ask(
                WantedView::Again { chat: p.req.chat, peer, message: p.msg_id },
            ),
        ],
        app::file_refused(s, tag, words, elsewhere).0.pending is None,
{
    assert(AppView { pending: None, ..s }.peer(p.req.chat) == s.peer(p.req.chat));
}

/// Whatever is said reaches the user where they are: the status line, and the conversation in front.
pub proof fn what_is_said_is_seen(s: AppView, words: Seq<char>)
    ensures
        s.saying(words).store.status == words,
        s.screen matches ScreenView::Conversation(c) ==> (s.saying(words).screen
            matches ScreenView::Conversation(n) && n.note == Some(words) && n.composer == c.composer
            && n.state == c.state),
{
}

/// A decode always ends with its timer cancelled and its decoder free, however it ends; and only a
/// picture takes the screen.
pub proof fn a_decode_leaves_nothing_behind(s: AppView, d: Decoded)
    ensures
        app::decode_ended(s, d).0.decoding is None,
        app::decode_ended(s, d).0.decode_watchdog is None,
        s.decode_watchdog matches Some(h) ==> app::decode_ended(s, d).1.contains(
            DoView::CancelTimer(h),
        ),
        s.decoding is Some ==> app::decode_ended(s, d).1.contains(DoView::ReleaseDecoder),
        d != Decoded::Picture || s.decoding is None ==> ((s.screen is Conversation)
            == (app::decode_ended(s, d).0.screen is Conversation)) && (s.screen is Viewer <==>
            app::decode_ended(s, d).0.screen is Viewer),
        s.decoding is Some && d == Decoded::Picture ==> app::decode_ended(s, d).0.screen
            == ScreenView::Viewer(s.decoding->0),
{
    if let Some(h) = s.decode_watchdog {
        assert(app::decode_ended(s, d).1[0] == DoView::CancelTimer(h));
    }
    if s.decoding is Some {
        let fx = app::decode_ended(s, d).1;
        assert(fx[fx.len() - 1] == DoView::ReleaseDecoder);
    }
}

/// Backing out of a picture returns to the conversation it was opened from.
pub proof fn a_picture_leads_back_to_its_conversation(s: AppView, i: usize, h: Handled)
    requires
        i < s.store.chats.len(),
    ensures
        app::viewer_keyed(s, i, h, true).0.screen == ScreenView::Conversation(conv::opened(i)),
{
}

/// Signing in shows the chat list and asks for it from the top.
pub proof fn signing_in_asks_for_the_list(s: AppView, elsewhere: Option<u8>)
    ensures
        ({
            let (n, h, fx) = app::reported(s, Outcome::Authorized, elsewhere);
            &&& n.screen == ScreenView::Chats(ListState { selected: 0, scroll: 0 })
            &&& n.dialogs_from_top
            &&& n.store == s.store
            &&& fx[0] == DoView::Ask(WantedView::FirstDialogs)
        }),
{
}

/// A connection that is lost is said on the login screen that is up, and the login goes on waiting
/// for nothing.
pub proof fn a_lost_connection_is_shown(s: AppView, why: &'static str, elsewhere: Option<u8>)
    ensures
        !(app::reported(s, Outcome::Disconnected(why), elsewhere).0.login.screen is Waiting),
{
}

/// A build without a connection asks the server for nothing, whatever is pressed.
pub proof fn without_a_connection_nothing_is_asked(s: AppView, p: Press, glyphs: Seq<char>, k: int)
    requires
        s.driver is None,
        0 <= k < app::keyed(s, p, glyphs).2.len(),
    ensures
        !(app::keyed(s, p, glyphs).2[k] is Ask),
{
    match s.screen {
        ScreenView::Conversation(c) => {
            let time = pages::clock(p.now as int, p.utc_offset as int);
            let i = c.chat;
            let (to, h, a) = conv::keyed(
                c,
                p.key,
                s.store.chats[i as int],
                glyphs,
                s.lang,
                p.answer,
            );
            let n = s.showing(ScreenView::Conversation(to));
            let (m, h2, fx) = app::conv_acted(n, i, h, a, time);
            let w = app::window(n, i);
            assert(app::keyed(s, p, glyphs).2 == w + fx);
            if k >= w.len() {
                assert((w + fx)[k] == fx[k - w.len()]);
                match a {
                    ConvActionView::OpenMedia(message) => {
                        a_press_looks_at_home_first(n, i, message);
                    },
                    _ => {},
                }
            }
        },
        _ => {},
    }
}

} // verus!
