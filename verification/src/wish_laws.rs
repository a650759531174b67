//! What the application is for: what a press asks for is what was pressed on, what goes out is what
//! was asked for, and what comes back goes where it belongs.

use crate::app;
use crate::app::{
    AppView, DecodeStart, Decoded, DoView, Parse, PendingView, Raw, Reply, ScreenView, WantedView,
};
use crate::app_run;
use crate::app_run::Asked;
use crate::cache_files;
use crate::chats::ChatListAction;
use crate::content_laws::{shows_time, the_clock_shows_the_time_of_day};
use crate::conv;
use crate::conv::{ConvActionView, Focus};
use crate::driver;
use crate::driver::{
    DriverView, Event, FileRequest, On, Outcome, Request, TAG_DIALOGS, TAG_FILE, TAG_HISTORY,
    TAG_INDEX, TAG_KIND, TAG_REFRESH, TAG_SEND,
};
use crate::driver_laws;
use crate::driver_laws::says;
use crate::login;
use crate::model::{ChatView, Delivery, MediaKind, MediaView, MessageView, PeerRef};
use crate::pages;
use crate::proto;
use crate::samples;
use crate::store_cache;
use crate::strings::Lang;
use crate::text::signed_decimal;
use crate::ui::{Handled, Key};
use vstd::prelude::*;

verus! {

// ---- attachments ----------------------------------------------------------------------------------

/// Whether a message of a chat carries an attachment.
pub open spec fn carries(s: AppView, i: usize, message: usize, m: MediaView) -> bool {
    &&& i < s.store.chats.len()
    &&& message < s.store.chats[i as int].messages.len()
    &&& s.store.chats[i as int].messages[message as int].media == Some(m)
}

/// Whether an attachment can be downloaded: a photo that names a size, a voice note, a track or a
/// file.
pub open spec fn can_be_had(m: MediaView) -> bool {
    match m {
        MediaView::Photo { thumb_size, .. } => thumb_size.len() > 0,
        MediaView::Voice { .. } => true,
        MediaView::Audio { .. } => true,
        MediaView::File { .. } => true,
        MediaView::Sticker { .. } => false,
        MediaView::Unknown => false,
    }
}

/// Whether a download is of an attachment: it names the file by its number, its key and its
/// reference, a photo also by its size, and it says which data centre has it and what it will be.
pub open spec fn is_of(p: PendingView, m: MediaView) -> bool {
    match m {
        MediaView::Photo { id, access_hash, file_reference, dc_id, thumb_size, .. } => {
            &&& p.kind == MediaKind::Photo
            &&& p.req.is_photo
            &&& p.req.id == id
            &&& p.req.access_hash == access_hash
            &&& p.req.file_reference == file_reference
            &&& p.req.thumb_size == thumb_size
            &&& 0 <= dc_id < 256 ==> p.dc == dc_id
        },
        MediaView::Voice { id, access_hash, file_reference, dc_id, .. } => {
            &&& p.kind == MediaKind::Voice
            &&& !p.req.is_photo
            &&& p.req.id == id
            &&& p.req.access_hash == access_hash
            &&& p.req.file_reference == file_reference
            &&& p.req.thumb_size.len() == 0
            &&& 0 <= dc_id < 256 ==> p.dc == dc_id
        },
        MediaView::Audio { id, access_hash, file_reference, dc_id, .. } => {
            &&& p.kind == MediaKind::Audio
            &&& !p.req.is_photo
            &&& p.req.id == id
            &&& p.req.access_hash == access_hash
            &&& p.req.file_reference == file_reference
            &&& p.req.thumb_size.len() == 0
            &&& 0 <= dc_id < 256 ==> p.dc == dc_id
        },
        MediaView::File { id, access_hash, file_reference, dc_id, .. } => {
            &&& p.kind == MediaKind::File
            &&& !p.req.is_photo
            &&& p.req.id == id
            &&& p.req.access_hash == access_hash
            &&& p.req.file_reference == file_reference
            &&& p.req.thumb_size.len() == 0
            &&& 0 <= dc_id < 256 ==> p.dc == dc_id
        },
        _ => false,
    }
}

/// An attachment that is not in the cache is asked for from its beginning, and as what it is: the
/// request is a photo's exactly where the attachment is a photo, and names that attachment's file.
/// What cannot be downloaded is not asked for.
pub proof fn an_attachment_is_asked_for_as_what_it_is(
    s: AppView,
    i: usize,
    message: usize,
    m: MediaView,
)
    requires
        carries(s, i, message, m),
        s.driver is Some,
        s.pending is None,
    ensures
        app::looked_up(s, i, message, None).0 == s,
        can_be_had(m) <==> app::looked_up(s, i, message, None).1.len() == 1,
        !can_be_had(m) <==> app::looked_up(s, i, message, None).1.len() == 0,
        can_be_had(m) ==> {
            &&& app::looked_up(s, i, message, None).1[0] matches DoView::Ask(WantedView::First(p))
            &&& p.msg_id == s.store.chats[i as int].messages[message as int].id
            &&& p.got.len() == 0
            &&& p.req.chat == i
            &&& p.req.offset == 0
            &&& p.req.is_photo <==> m is Photo
            &&& is_of(p, m)
        },
{
}

/// The request for a file says that it is a photo's for a photo, and for nothing else.
pub proof fn only_a_photo_is_asked_for_as_one(m: MediaView, i: usize)
    ensures
        app::first_request(m, i).is_photo <==> m is Photo,
        m is Voice || m is Audio || m is File ==> !app::first_request(m, i).is_photo,
        app::first_request(m, i).chat == i,
        app::first_request(m, i).offset == 0,
{
}

/// A press on a message looks its own file up in the cache, by the number the attachment has.
/// Nothing is looked up for a message with nothing to fetch, and what is said then is seen.
pub proof fn a_press_looks_its_own_file_up(s: AppView, i: usize, message: usize, m: MediaView)
    requires
        carries(s, i, message, m),
        can_be_had(m),
        m is Photo ==> m->Photo_preview is None,
    ensures
        app::downloading(s, i, message).0 == s,
        app::downloading(s, i, message).1.len() == 1,
        app::downloading(s, i, message).1[0] matches DoView::LookUp { chat, message: at, id } && chat
            == i && at == message && match m {
            MediaView::Photo { id: n, .. } => id == n,
            MediaView::Voice { id: n, .. } => id == n,
            MediaView::Audio { id: n, .. } => id == n,
            MediaView::File { id: n, .. } => id == n,
            _ => false,
        },
{
}

/// A photo that is in the cache is decoded from there and not asked for: its own bytes, under its own
/// number, for the conversation it was pressed in. No other file is decoded.
pub proof fn a_cached_photo_is_shown(
    s: AppView,
    i: usize,
    message: usize,
    m: MediaView,
    data: Seq<u8>,
    k: int,
)
    requires
        carries(s, i, message, m),
        can_be_had(m),
    ensures
        ({
            let (n, fx) = app::looked_up(s, i, message, Some(data));
            &&& m matches MediaView::Photo { id, .. } ==> {
                &&& fx.len() > 0
                &&& fx.last() matches DoView::Decode { chat, id: at, data: bytes }
                &&& chat == i
                &&& at == id
                &&& bytes == data
                &&& fx.len() == (if s.decoding is Some {
                    2int
                } else {
                    1
                })
                &&& s.decoding is Some ==> fx[0] == DoView::ReleaseDecoder
                &&& n.decoding is None
            }
            &&& !(m is Photo) ==> fx.len() == 0
            &&& 0 <= k < fx.len() ==> !(fx[k] is Ask)
            &&& n.pending == s.pending
            &&& n.store.chats == s.store.chats
        }),
{
}

/// A file that is all there is kept under its own number, whole; a photo is decoded under it, for the
/// conversation it was asked from.
pub proof fn a_file_is_kept_under_its_number(s: AppView, p: PendingView, b: Seq<u8>)
    requires
        s.pending == Some(p),
        b.len() != app::CHUNK,
        p.got.len() + b.len() <= app::MAX_FILE_BYTES,
    ensures
        ({
            let (n, fx) = app::chunk_came(s, Some(b));
            &&& n.pending is None
            &&& n.store.chats == s.store.chats
            &&& fx.len() > 0
            &&& p.kind == MediaKind::Photo ==> {
                &&& fx.last() matches DoView::Decode { chat, id, data }
                &&& chat == p.req.chat
                &&& id == p.req.id
                &&& data == p.got + b
            }
            &&& p.kind != MediaKind::Photo ==> {
                &&& fx.len() == 1
                &&& fx[0] matches DoView::Keep { id, data }
                &&& id == p.req.id
                &&& data == p.got + b
            }
        }),
{
}

/// The next chunk is asked for of the same file, at the same place: only where it begins is new, and
/// that is where what is held ends.
pub proof fn the_next_chunk_is_of_the_same_file(s: AppView, p: PendingView, b: Seq<u8>)
    requires
        s.pending == Some(p),
        s.driver is Some,
        b.len() == app::CHUNK,
        p.got.len() + b.len() <= app::MAX_FILE_BYTES,
    ensures
        ({
            let (n, fx) = app::chunk_came(s, Some(b));
            &&& fx.len() == 1
            &&& fx[0] matches DoView::Ask(WantedView::Next(q))
            &&& q.req.offset == p.got.len() + b.len()
            &&& q.got == p.got + b
            &&& q.msg_id == p.msg_id
            &&& q.kind == p.kind
            &&& q.dc == p.dc
            &&& q.req.chat == p.req.chat
            &&& q.req.is_photo == p.req.is_photo
            &&& q.req.id == p.req.id
            &&& q.req.access_hash == p.req.access_hash
            &&& q.req.file_reference == p.req.file_reference
            &&& q.req.thumb_size == p.req.thumb_size
        }),
{
}

/// What cannot be read, or was not asked for, ends the download and is said; nothing is kept of it.
pub proof fn a_chunk_that_is_not_one_ends_the_download(s: AppView, b: Seq<u8>)
    ensures
        app::chunk_came(s, None).0.pending is None,
        app::chunk_came(s, None).1.len() == 0,
        s.pending is None ==> app::chunk_came(s, Some(b)).1.len() == 0,
        app::chunk_came(s, None).0.store.chats == s.store.chats,
        app::chunk_came(s, None).0.store.status == "download: parse falhou"@,
        s.pending is None ==> app::chunk_came(s, Some(b)).0.store.status
            == "download: sem pedido correspondente"@,
{
}

/// A download runs exactly from when its request went out: the application then waits for what it
/// asked for, and otherwise for what it waited for before.
pub proof fn a_download_runs_once_it_went_out(s: AppView, p: PendingView, home: u8, time: Seq<char>)
    ensures
        app::went_out(s, WantedView::First(p), true, home, time).pending == Some(p),
        app::went_out(s, WantedView::First(p), false, home, time).pending == s.pending,
        app::went_out(s, WantedView::Next(p), true, home, time).pending == Some(p),
        app::went_out(s, WantedView::Next(p), false, home, time).pending == s.pending,
        app::went_out(s, WantedView::Elsewhere { req: p.req, dc: p.dc }, true, home, time).pending
            == s.pending,
        app::went_out(s, WantedView::Elsewhere { req: p.req, dc: p.dc }, false, home, time).pending
            is None,
        app::went_out(s, WantedView::First(p), true, home, time).store.status == (if p.dc == 0
            || p.dc == home {
            "baixando..."@
        } else {
            "conectando ao servidor da midia..."@
        }),
        app::went_out(s, WantedView::First(p), true, home, time).store.chats == s.store.chats,
        app::went_out(s, WantedView::Next(p), true, home, time).store.chats == s.store.chats,
{
}

/// A file that lives elsewhere is asked for there, and only there: the place the refusal names is the
/// one that is asked, for the same file from where what is held ends.
pub proof fn a_download_goes_on_at_the_place_named(
    s: AppView,
    tag: u32,
    words: Seq<char>,
    dc: u8,
    p: PendingView,
)
    requires
        s.pending == Some(p),
        s.driver is Some,
        p.got.len() <= app::MAX_FILE_BYTES,
        !crate::text::has_prefix(words, "FILE_REFERENCE_EXPIRED"@),
    ensures
        ({
            let (n, fx) = app::file_refused(s, tag, words, Some(dc));
            &&& fx.len() == 1
            &&& fx[0] matches DoView::Ask(WantedView::Elsewhere { req, dc: at })
            &&& at == dc
            &&& req.offset == p.got.len()
            &&& req.id == p.req.id
            &&& req.is_photo == p.req.is_photo
            &&& req.chat == p.req.chat
            &&& req.access_hash == p.req.access_hash
            &&& req.file_reference == p.req.file_reference
            &&& req.thumb_size == p.req.thumb_size
            &&& n.pending matches Some(q)
            &&& q.req == req
            &&& q.dc == dc
            &&& q.got == p.got
            &&& q.kind == p.kind
            &&& q.msg_id == p.msg_id
        }),
{
}

/// A refusal that names no other place ends the download, and is said in the server's own words.
pub proof fn a_refused_download_is_said(s: AppView, tag: u32, words: Seq<char>)
    requires
        !crate::text::has_prefix(words, "FILE_REFERENCE_EXPIRED"@),
    ensures
        ({
            let (n, fx) = app::file_refused(s, tag, words, None);
            &&& n.pending is None
            &&& fx.len() == 0
            &&& n.store.status == "download: "@ + words
            &&& n.store.chats == s.store.chats
        }),
{
}

// ---- decoding -------------------------------------------------------------------------------------

/// A decode that began is watched over, and shows in the conversation it is for when it ends well;
/// one that did not begin is said, and nothing runs.
pub proof fn a_decode_shows_where_it_was_asked_for(s: AppView, i: usize, data: Seq<u8>, code: i32)
    ensures
        ({
            let (n, fx) = app::decode_begun(s, i, data, DecodeStart::Begun);
            &&& n.decoding == Some(i)
            &&& fx == seq![DoView::DecodeTimer]
            &&& app::decode_ended(n, Decoded::Picture).0.screen == ScreenView::Viewer(i)
            &&& app::decode_ended(n, Decoded::Picture).0.decoding is None
            &&& (app::decode_ended(n, Decoded::Failed(code)).0.screen is Viewer) == (n.screen
                is Viewer)
            &&& (app::decode_ended(n, Decoded::NoPicture(code)).0.screen is Viewer) == (n.screen
                is Viewer)
            &&& app::decode_ended(n, Decoded::Picture).1.last() == DoView::ReleaseDecoder
            &&& app::decode_ended(n, Decoded::Failed(code)).1.last() == DoView::ReleaseDecoder
        }),
        app::decode_begun(s, i, data, DecodeStart::NoFile).0.decoding == s.decoding,
        app::decode_begun(s, i, data, DecodeStart::NoFile).1.len() == 0,
        app::decode_begun(s, i, data, DecodeStart::Refused(code)).0.decoding == s.decoding,
        app::decode_begun(s, i, data, DecodeStart::Refused(code)).1.len() == 0,
{
}

/// The timer of a decode is told from the driver's by its handle, and a decode that was given up
/// opens nothing. Everything else is the driver's, as it came.
pub proof fn a_report_reaches_whom_it_is_for(
    s: AppView,
    handle: i32,
    progress: Option<app::DecodeProgress>,
    decoded: Decoded,
    ev: Event,
)
    ensures
        s.decode_watchdog == Some(handle) ==> app::driver_event(s, Raw::Timer { handle, progress })
            is None,
        s.decode_watchdog != Some(handle) ==> app::driver_event(s, Raw::Timer { handle, progress })
            == Some(Event::Timer(handle)),
        app::driver_event(s, Raw::Other(ev)) == Some(ev),
        app::driver_event(s, Raw::Bridged) is None,
        app::undriven(s, Raw::Bridged).0.should_exit,
        app::driver_event(s, Raw::ImageDone { mine: true, decoded }) is None,
        app::undriven(s, Raw::ImageDone { mine: false, decoded }) == (
            s,
            Handled::Ignored,
            Seq::<DoView>::empty(),
        ),
        ({
            let n = app::undriven(s, Raw::Timer { handle, progress });
            &&& n.0.decoding is None
            &&& n.0.decode_watchdog is None
            &&& (n.0.screen is Viewer) == (s.screen is Viewer)
            &&& n.2 == (if s.decoding is Some {
                seq![DoView::ReleaseDecoder]
            } else {
                Seq::<DoView>::empty()
            })
        }),
{
}

// ---- the list and its conversations ---------------------------------------------------------------

/// The next page of chats is asked for from where the list ends, once: a page that is on its way, or a
/// list that is all here, asks for nothing and changes nothing.
pub proof fn the_next_page_of_chats_is_asked_for_from_where_the_list_ends(s: AppView)
    ensures
        ({
            let (n, w) = app::more_dialogs(s);
            &&& s.store.dialogs_loading || s.store.dialogs_complete ==> n == s && w is None
            &&& !s.store.dialogs_loading && !s.store.dialogs_complete && s.driver is Some ==> {
                &&& w matches Some(WantedView::MoreDialogs { date, id, after })
                &&& date == s.store.dialog_offset_date
                &&& id == s.store.dialog_offset_id
                &&& after == s.store.dialog_offset_peer
                &&& n.store.dialogs_loading
                &&& !n.store.dialogs_complete
                &&& !n.dialogs_from_top
            }
            &&& !s.store.dialogs_loading && s.driver is None ==> w is None
                && n.store.dialogs_complete && !n.store.dialogs_loading
            &&& n.store.chats == s.store.chats
            &&& n.screen == s.screen
        }),
{
}

/// The list is asked for from the top once at a time, and then a page that comes replaces it. What
/// could not be asked for is said.
pub proof fn the_list_is_asked_for_from_the_top(s: AppView, sent: bool, home: u8, time: Seq<char>)
    ensures
        ({
            let (n, w) = app::top_dialogs(s);
            &&& w == (if s.driver is Some && !s.store.dialogs_loading {
                Some(WantedView::TopDialogs)
            } else {
                None
            })
            &&& w is Some ==> n == s
            &&& s.store.dialogs_loading ==> n.store.status == "ja atualizando..."@
            &&& n.store.chats == s.store.chats
        }),
        ({
            let n = app::went_out(s, WantedView::TopDialogs, sent, home, time);
            &&& n.dialogs_from_top
            &&& n.store.dialogs_loading
            &&& !n.store.dialogs_complete
            &&& n.store.chats == s.store.chats
            &&& n.store.status == (if sent {
                "atualizando..."@
            } else {
                "atualizacao na fila"@
            })
        }),
{
}

/// The newest page of a conversation is asked for of its own peer, once at a time.
pub proof fn the_newest_page_is_asked_for_of_its_peer(s: AppView, i: usize, noted: bool)
    requires
        i < s.store.chats.len(),
    ensures
        ({
            let c = s.store.chats[i as int];
            let (n, w) = app::newest(s, i, noted);
            &&& n.store.chats == s.store.chats
            &&& n.screen == s.screen
            &&& c.loading || c.peer is None || s.driver is None ==> w is None
            &&& !c.loading && c.peer is Some && s.driver is Some ==> {
                &&& w matches Some(WantedView::Newest { chat, peer, noted: shown })
                &&& chat == i
                &&& c.peer == Some(peer)
                &&& shown == noted
                &&& n == s
            }
        }),
{
}

/// A chat whose newest page was asked for waits for it, and no other does. What became of the wish is
/// said on its screen where that was wished.
pub proof fn only_the_chat_that_asked_waits(
    s: AppView,
    i: usize,
    peer: PeerRef,
    noted: bool,
    sent: bool,
    home: u8,
    time: Seq<char>,
    k: int,
)
    requires
        i < s.store.chats.len(),
        0 <= k < s.store.chats.len(),
    ensures
        ({
            let n = app::went_out(s, WantedView::Newest { chat: i, peer, noted }, sent, home, time);
            &&& n.store.chats.len() == s.store.chats.len()
            &&& k == i ==> n.store.chats[k].loading && n.store.chats[k].messages
                == s.store.chats[k].messages && n.store.chats[k].oldest == s.store.chats[k].oldest
                && n.store.chats[k].complete == s.store.chats[k].complete && n.store.chats[k].name
                == s.store.chats[k].name && n.store.chats[k].peer == s.store.chats[k].peer
            &&& k != i ==> n.store.chats[k] == s.store.chats[k]
            &&& noted && s.screen is Conversation ==> n.screen is Conversation && (
            n.screen->Conversation_0.note == Some(n.store.status))
            &&& !noted ==> n.screen == s.screen
            &&& n.store.status == (if sent {
                "atualizando..."@
            } else {
                "atualizacao na fila"@
            })
        }),
{
}

/// The page above is asked for of the conversation's own peer, above the oldest message it holds, and
/// that conversation alone waits for it.
pub proof fn the_page_above_is_asked_for_above_the_oldest(s: AppView, i: usize, k: int)
    requires
        i < s.store.chats.len(),
        0 <= k < s.store.chats.len(),
    ensures
        ({
            let c = s.store.chats[i as int];
            let (n, w) = app::older(s, i);
            let owed = !c.loading && !c.complete && !c.windowed && c.peer is Some;
            &&& !owed ==> n == s && w is None
            &&& owed && s.driver is Some ==> {
                &&& w matches Some(WantedView::Older { chat, peer, offset })
                &&& chat == i
                &&& c.peer == Some(peer)
                &&& offset == c.oldest
                &&& n.store.chats[i as int].loading
                &&& !n.store.chats[i as int].complete
            }
            &&& owed && s.driver is None ==> w is None && n.store.chats[i as int].complete
                && !n.store.chats[i as int].loading
            &&& n.store.chats[i as int].messages == c.messages
            &&& n.store.chats[i as int].peer == c.peer
            &&& n.store.chats[i as int].oldest == c.oldest
            &&& k != i ==> n.store.chats[k] == s.store.chats[k]
            &&& n.screen == s.screen
        }),
{
}

/// One message is asked for again of the peer of its chat, under its own number.
pub proof fn a_message_is_asked_for_again_of_its_peer(s: AppView, i: usize, message: i32)
    ensures
        ({
            let (n, w) = app::again(s, i, message);
            let known = i < s.store.chats.len() && s.store.chats[i as int].peer is Some;
            &&& w is Some <==> known && s.driver is Some
            &&& w matches Some(w) ==> {
                &&& w matches WantedView::Again { chat, peer, message: id }
                &&& chat == i
                &&& s.store.chats[i as int].peer == Some(peer)
                &&& id == message
                &&& n == s
            }
            &&& n.store.chats == s.store.chats
            &&& !known ==> n.store.status == "refresh: sem peer"@
        }),
{
}

/// An expired reference asks for the message of the download again, in the chat of the download; and
/// the download is over until it comes.
pub proof fn an_expired_reference_asks_for_its_message(
    s: AppView,
    tag: u32,
    words: Seq<char>,
    elsewhere: Option<u8>,
    p: PendingView,
)
    requires
        s.pending == Some(p),
        s.driver is Some,
        p.req.chat < s.store.chats.len(),
        s.store.chats[p.req.chat as int].peer is Some,
        crate::text::has_prefix(words, "FILE_REFERENCE_EXPIRED"@),
    ensures
        ({
            let (n, fx) = app::file_refused(s, tag, words, elsewhere);
            &&& n.pending is None
            &&& fx.len() == 1
            &&& fx[0] matches DoView::Ask(WantedView::Again { chat, peer, message })
            &&& chat == p.req.chat
            &&& message == p.msg_id
            &&& s.store.chats[p.req.chat as int].peer == Some(peer)
        }),
{
}

/// What was typed goes out as it was typed, to the peer of the conversation it was typed in; without
/// someone to carry it, it is shown at once.
pub proof fn what_was_typed_is_what_is_sent(s: AppView, i: usize, words: Seq<char>, time: Seq<char>)
    requires
        i < s.store.chats.len(),
    ensures
        ({
            let (n, w) = app::sending(s, i, words, time);
            let carried = s.store.chats[i as int].peer is Some && s.driver is Some;
            &&& carried ==> {
                &&& w matches Some(WantedView::Message { chat, peer, text })
                &&& chat == i
                &&& s.store.chats[i as int].peer == Some(peer)
                &&& text == words
                &&& n == s
            }
            &&& !carried ==> w is None && n.store.chats[i as int].messages.len() > 0
                && n.store.chats[i as int].messages.last().text == words
        }),
{
    crate::app_laws::a_sent_message_shows_at_once(s, i, words, false, time);
}

/// A message that went out is shown in its own conversation, as one's own, at the time it was sent:
/// waiting where it was taken, and failed where it was not. The conversation goes on as an empty
/// composer, and no other chat changes.
pub proof fn a_message_shows_in_its_own_conversation(
    s: AppView,
    i: usize,
    peer: PeerRef,
    words: Seq<char>,
    sent: bool,
    home: u8,
    time: Seq<char>,
    k: int,
)
    requires
        i < s.store.chats.len(),
        s.driver is Some,
        0 <= k < s.store.chats.len(),
    ensures
        ({
            let n = app::went_out(
                s,
                WantedView::Message { chat: i, peer, text: words },
                sent,
                home,
                time,
            );
            let last = n.store.chats[i as int].messages.last();
            &&& n.store.chats.len() == s.store.chats.len()
            &&& n.store.chats[i as int].messages.len() > 0
            &&& last.text == words
            &&& last.time == time
            &&& last.outgoing
            &&& last.id == 0
            &&& last.media is None
            &&& last.state == (if sent {
                Delivery::Pending
            } else {
                Delivery::Failed
            })
            &&& n.store.chats[i as int].last_outgoing
            &&& n.store.chats[i as int].name == s.store.chats[i as int].name
            &&& n.store.chats[i as int].peer == s.store.chats[i as int].peer
            &&& k != i ==> n.store.chats[k] == s.store.chats[k]
            &&& s.screen is Conversation ==> n.screen is Conversation && (
            n.screen->Conversation_0.chat == i && n.screen->Conversation_0.composer.text.len() == 0
                && n.screen->Conversation_0.focus is Composer)
            &&& !(s.screen is Conversation) ==> n.screen == s.screen
        }),
{
    crate::app_laws::a_sent_message_shows_at_once(s, i, words, sent, time);
    let c = s.store.chats[i as int];
    let state = if !sent {
        Delivery::Failed
    } else {
        Delivery::Pending
    };
    let all = pages::appended(c, app::own_message(words, time, state));
    let kept = pages::trimmed(all);
    assert(kept.messages.last() == all.messages.last());
}

/// A conversation comes up at its own chat, unwritten, with the keys at the composer.
pub proof fn a_conversation_comes_up_unwritten(i: usize)
    ensures
        conv::opened(i).chat == i,
        conv::opened(i).composer.text.len() == 0,
        conv::opened(i).composer.cursor == 0,
        !conv::opened(i).composer.masked,
        conv::opened(i).composer.limit == 4096,
        conv::opened(i).state.selected == 0,
        conv::opened(i).state.scroll == 0,
        conv::opened(i).focus == Focus::Composer,
        conv::opened(i).transcript is None,
        conv::opened(i).note is None,
        conv::opened(i).link is None,
{
}

/// A chat that is opened asks for itself and for no other: for what is new where its file held
/// something, and for its first page otherwise. What its file held is what it then shows.
pub proof fn a_chat_that_is_opened_asks_for_itself(
    s: AppView,
    i: usize,
    file: Option<Seq<u8>>,
    k: int,
)
    requires
        i < s.store.chats.len(),
        0 <= k < s.store.chats.len(),
    ensures
        ({
            let c = s.store.chats[i as int];
            let (n, w) = app::opening(s, i, file);
            let restored = cache_files::refills(ChatView { unread: 0, ..c }, file);
            &&& n.store.chats.len() == s.store.chats.len()
            &&& k != i ==> n.store.chats[k] == s.store.chats[k]
            &&& n.store.chats[i as int].unread == 0
            &&& n.store.chats[i as int].name == c.name
            &&& n.store.chats[i as int].peer == c.peer
            &&& !restored ==> n.store.chats[i as int].messages == c.messages
            &&& restored ==> {
                &&& file matches Some(bytes)
                &&& store_cache::decoded_tail(bytes) matches Some((messages, oldest))
                &&& n.store.chats[i as int].messages == messages
                &&& n.store.chats[i as int].oldest == oldest
            }
            &&& w matches Some(WantedView::Newest { chat, peer, noted }) ==> restored && chat == i
                && c.peer == Some(peer) && !noted
            &&& w matches Some(WantedView::Older { chat, peer, offset }) ==> !restored && chat == i
                && c.peer == Some(peer) && offset == c.oldest
            &&& w matches Some(w) ==> w is Newest || w is Older
            &&& s.driver is Some && !restored ==> n.opening_chat == Some(i) && n.screen == s.screen
            &&& s.driver is None || restored ==> n.screen is Conversation
                && n.screen->Conversation_0.chat == i
        }),
{
}

// ---- what goes out --------------------------------------------------------------------------------

proof fn lemma_tags(chat: usize)
    ensures
        says(driver::tagged(TAG_HISTORY, driver::chat_bits(chat)), TAG_HISTORY, chat),
        says(driver::tagged(TAG_SEND, driver::chat_bits(chat)), TAG_SEND, chat),
        says(driver::tagged(TAG_REFRESH, driver::chat_bits(chat)), TAG_REFRESH, chat),
{
    driver_laws::lemma_kinds();
    driver_laws::lemma_tag(TAG_HISTORY, chat);
    driver_laws::lemma_tag(TAG_SEND, chat);
    driver_laws::lemma_tag(TAG_REFRESH, chat);
}

/// A page of the list is asked for from where the wish says, and from the top where it says so.
pub proof fn a_wish_for_chats_is_put_as_it_is(
    d: DriverView,
    date: i32,
    id: i32,
    peer: Option<PeerRef>,
    busy: bool,
    after: DriverView,
    r: Asked,
)
    requires
        d.home is Some,
    ensures
        app_run::asked(d, WantedView::MoreDialogs { date, id, after: peer }, busy, after, r) ==> {
            &&& after == d
            &&& r matches Asked::Call(c)
            &&& c.on == On::Home
            &&& c.tag == TAG_DIALOGS
            &&& c.request matches Request::Dialogs { limit, offset_date, offset_id, offset_peer }
            &&& limit > 0
            &&& offset_date == date
            &&& offset_id == id
            &&& offset_peer == peer
        },
        app_run::asked(d, WantedView::TopDialogs, busy, after, r) || app_run::asked(
            d,
            WantedView::FirstDialogs,
            busy,
            after,
            r,
        ) ==> {
            &&& after == d
            &&& r matches Asked::Call(c)
            &&& c.on == On::Home
            &&& c.tag == TAG_DIALOGS
            &&& c.request matches Request::Dialogs { limit, offset_date, offset_id, offset_peer }
            &&& limit > 0
            &&& offset_date == 0
            &&& offset_id == 0
            &&& offset_peer is None
        },
{
}

/// A page of a conversation is asked for of the peer of the wish, above the message of the wish, and
/// under a tag that says which chat it is for; the newest page is above nothing.
pub proof fn a_wish_for_history_is_put_as_it_is(
    d: DriverView,
    i: usize,
    with: PeerRef,
    noted: bool,
    above: i32,
    busy: bool,
    after: DriverView,
    r: Asked,
)
    requires
        d.home is Some,
    ensures
        app_run::asked(d, WantedView::Newest { chat: i, peer: with, noted }, busy, after, r) ==> {
            &&& after == d
            &&& r matches Asked::Call(c)
            &&& c.on == On::Home
            &&& says(c.tag, TAG_HISTORY, i)
            &&& c.request matches Request::History { peer, offset_id, limit }
            &&& peer == with
            &&& offset_id == 0
            &&& limit > 0
        },
        app_run::asked(d, WantedView::Older { chat: i, peer: with, offset: above }, busy, after, r)
            ==> {
            &&& after == d
            &&& r matches Asked::Call(c)
            &&& c.on == On::Home
            &&& says(c.tag, TAG_HISTORY, i)
            &&& c.request matches Request::History { peer, offset_id, limit }
            &&& peer == with
            &&& offset_id == above
            &&& limit > 0
        },
{
    lemma_tags(i);
}

/// A message goes out to the peer of the wish in the words of the wish, and one that is wanted again
/// is asked for of its peer by its number; each under a tag that says which chat it is for.
pub proof fn a_wish_for_a_message_is_put_as_it_is(
    d: DriverView,
    i: usize,
    with: PeerRef,
    words: Seq<char>,
    id: i32,
    busy: bool,
    after: DriverView,
    r: Asked,
)
    requires
        d.home is Some,
    ensures
        app_run::asked(d, WantedView::Message { chat: i, peer: with, text: words }, busy, after, r)
            ==> {
            &&& after == d
            &&& r matches Asked::Call(c)
            &&& c.on == On::Home
            &&& says(c.tag, TAG_SEND, i)
            &&& c.request matches Request::Send { peer, text }
            &&& peer == with
            &&& text@ == words
        },
        app_run::asked(d, WantedView::Again { chat: i, peer: with, message: id }, busy, after, r)
            ==> {
            &&& after == d
            &&& r matches Asked::Call(c)
            &&& c.on == On::Home
            &&& says(c.tag, TAG_REFRESH, i)
            &&& c.request matches Request::Refresh { peer, message }
            &&& peer == with
            &&& message == id
        },
{
    lemma_tags(i);
}

/// Without a link nothing but a chunk is put to anyone, and the driver stays as it is.
pub proof fn without_a_link_a_wish_is_refused(
    d: DriverView,
    w: WantedView,
    busy: bool,
    after: DriverView,
    r: Asked,
)
    requires
        d.home is None,
        app_run::asked(d, w, busy, after, r),
        !(w is First) && !(w is Next) && !(w is Elsewhere),
    ensures
        r is Refused,
        after == d,
{
}

/// A chunk is put to the driver as it was wished for: of that file, from that offset, at the data
/// centre of the wish.
pub proof fn a_wish_for_a_chunk_is_put_as_it_is(
    d: DriverView,
    p: PendingView,
    busy: bool,
    after: DriverView,
    r: Asked,
)
    requires
        app_run::asked(d, WantedView::First(p), busy, after, r) || app_run::asked(
            d,
            WantedView::Next(p),
            busy,
            after,
            r,
        ) || app_run::asked(
            d,
            WantedView::Elsewhere { req: p.req, dc: p.dc },
            busy,
            after,
            r,
        ),
    ensures
        exists|q: FileRequest|
            {
                &&& q.chat == p.req.chat
                &&& q.is_photo == p.req.is_photo
                &&& q.id == p.req.id
                &&& q.access_hash == p.req.access_hash
                &&& q.file_reference@ == p.req.file_reference
                &&& q.thumb_size@ == p.req.thumb_size
                &&& q.offset == p.req.offset
                &&& after == #[trigger] driver::chunk(d, q, p.dc, busy).0
                &&& r matches Asked::Chunk(e, fx) && e == driver::chunk(d, q, p.dc, busy).1
                    && driver::fx_views(fx@) == driver::chunk(d, q, p.dc, busy).2
            },
{
    let q = choose|q: FileRequest| #[trigger]
        app::request_view(q) == p.req && after == driver::chunk(d, q, p.dc, busy).0 && (
        r matches Asked::Chunk(e, fx) && e == driver::chunk(d, q, p.dc, busy).1 && driver::fx_views(
            fx@,
        ) == driver::chunk(d, q, p.dc, busy).2);
    assert(app::request_view(q) == p.req);
    assert(after == driver::chunk(d, q, p.dc, busy).0);
}

// ---- what comes back ------------------------------------------------------------------------------

proof fn lemma_parse(tag: u32, kind: u32)
    requires
        tag & TAG_KIND == kind,
    ensures
        kind == TAG_HISTORY ==> app::parse_of(tag) == Parse::History,
        kind == TAG_SEND ==> app::parse_of(tag) == Parse::Sent,
        kind == TAG_REFRESH ==> app::parse_of(tag) == Parse::Again,
        kind == TAG_FILE ==> app::parse_of(tag) == Parse::File,
        kind == 0x1000_0000 && tag != TAG_DIALOGS ==> app::parse_of(tag) == Parse::Nothing,
{
    driver_laws::lemma_kinds();
    driver_laws::requests_are_told_apart();
}

/// An answer is read as what was asked for: each kind of request has its own kind of reply, and what
/// was not asked for by the application is not read at all.
pub proof fn an_answer_is_read_as_what_was_asked(tag: u32)
    ensures
        app::parse_of(TAG_DIALOGS) == Parse::Dialogs,
        app::parse_of(tag) == Parse::Dialogs ==> tag == TAG_DIALOGS,
        tag & TAG_KIND == TAG_HISTORY <==> app::parse_of(tag) == Parse::History,
        tag & TAG_KIND == TAG_SEND <==> app::parse_of(tag) == Parse::Sent,
        tag & TAG_KIND == TAG_REFRESH <==> app::parse_of(tag) == Parse::Again,
        tag & TAG_KIND == TAG_FILE <==> app::parse_of(tag) == Parse::File,
{
    lemma_parse(tag, tag & TAG_KIND);
    driver_laws::lemma_kinds();
    driver_laws::requests_are_told_apart();
}

/// A page of history goes into the chat its tag names, and into no other: every message it adds is
/// one of the page, and the conversation no longer waits. Its file is written.
pub proof fn a_page_of_history_goes_to_its_chat(
    s: AppView,
    tag: u32,
    i: usize,
    peer: PeerRef,
    page: proto::Dialogs,
    offset: int,
    k: int,
)
    requires
        i <= TAG_INDEX,
        says(tag, TAG_HISTORY, i),
        i < s.store.chats.len(),
        s.store.chats[i as int].peer == Some(peer),
        0 <= k < s.store.chats.len(),
    ensures
        ({
            let (n, fx) = app::replied(s, tag, Reply::History(Some(page)), offset);
            &&& n.store.chats.len() == s.store.chats.len()
            &&& k != i ==> n.store.chats[k] == s.store.chats[k]
            &&& n.store.chats[i as int] == pages::after_history(
                s.store.chats[i as int],
                page@.messages,
                peer.id,
                offset,
            )
            &&& n.store.chats[i as int].messages.len() > 0 && n.store.chats[i as int].peer
                == Some(peer) ==> fx == seq![
                DoView::Write(
                    cache_files::tail_file(peer),
                    store_cache::enc_tail(n.store.chats[i as int]),
                ),
            ]
            &&& n.pending == s.pending
            &&& n.store.status == s.store.status
        }),
        ({
            let (n, fx) = app::replied(s, tag, Reply::History(None), offset);
            &&& fx.len() == 0
            &&& !n.store.chats[i as int].loading
            &&& n.store.chats[i as int].messages == s.store.chats[i as int].messages
            &&& k != i ==> n.store.chats[k] == s.store.chats[k]
        }),
{
    lemma_parse(tag, TAG_HISTORY);
}

proof fn lemma_last_waiting(m: Seq<MessageView>)
    ensures
        app::last_pending(m) matches Some(j) ==> {
            &&& 0 <= j < m.len()
            &&& m[j].state == Delivery::Pending
            &&& forall|k: int| j < k < m.len() ==> m[k].state != Delivery::Pending
        },
        app::last_pending(m) is None ==> forall|k: int|
            0 <= k < m.len() ==> m[k].state != Delivery::Pending,
    decreases m.len(),
{
    if m.len() > 0 && m.last().state != Delivery::Pending {
        let shorter = m.drop_last();
        lemma_last_waiting(shorter);
        assert forall|k: int| 0 <= k < shorter.len() implies #[trigger] m[k] == shorter[k] by {}
    }
}

/// Word that a message was taken goes to the chat its tag names: the last of its messages that waits
/// is sent, with its words and its time, and every other message of every chat is as it was.
pub proof fn a_message_that_was_taken_is_marked_sent(
    s: AppView,
    tag: u32,
    i: usize,
    offset: int,
    k: int,
    j: int,
)
    requires
        i <= TAG_INDEX,
        says(tag, TAG_SEND, i),
        i < s.store.chats.len(),
        0 <= k < s.store.chats.len(),
        0 <= j < s.store.chats[k].messages.len(),
    ensures
        ({
            let (n, fx) = app::replied(s, tag, Reply::Sent, offset);
            let was = s.store.chats[k].messages;
            let now = n.store.chats[k].messages;
            let last = k == i && was[j].state == Delivery::Pending && (forall|m: int|
                j < m < was.len() ==> was[m].state != Delivery::Pending);
            &&& fx.len() == 0
            &&& n.store.chats.len() == s.store.chats.len()
            &&& now.len() == was.len()
            &&& now[j].id == was[j].id && now[j].text == was[j].text && now[j].time == was[j].time
                && now[j].outgoing == was[j].outgoing && now[j].media == was[j].media
            &&& now[j].state == (if last {
                Delivery::Sent
            } else {
                was[j].state
            })
            &&& n.store.chats[k].name == s.store.chats[k].name
            &&& n.store.chats[k].unread == s.store.chats[k].unread
        }),
{
    lemma_parse(tag, TAG_SEND);
    lemma_last_waiting(s.store.chats[i as int].messages);
}

/// A message that was asked for again goes to the chat its tag names, and to no other; a chunk goes to
/// the download; and a page of the list to the list.
pub proof fn each_answer_goes_where_it_belongs(
    s: AppView,
    tag: u32,
    i: usize,
    m: proto::Message,
    b: Option<Vec<u8>>,
    page: Option<proto::Dialogs>,
    offset: int,
    k: int,
)
    requires
        i <= TAG_INDEX,
        i < s.store.chats.len(),
        0 <= k < s.store.chats.len(),
    ensures
        says(tag, TAG_REFRESH, i) ==> {
            let (n, fx) = app::replied(s, tag, Reply::Again(Some(m)), offset);
            &&& fx.len() == 0
            &&& n.store.chats.len() == s.store.chats.len()
            &&& n.store.chats[i as int] == pages::refreshed(s.store.chats[i as int], m@.id, m@)
            &&& k != i ==> n.store.chats[k] == s.store.chats[k]
            &&& app::replied(s, tag, Reply::Again(None), offset).0 == s
        },
        says(tag, TAG_FILE, i) ==> app::replied(s, tag, Reply::File(b), offset) == app::chunk_came(
            s,
            proto::bytes_opt(b),
        ),
        app::replied(s, TAG_DIALOGS, Reply::Dialogs(page), offset) == app::dialogs_came(
            s,
            page,
            offset,
        ),
        says(tag, TAG_SEND, i) ==> app::replied(s, tag, Reply::File(b), offset).0 == s,
        says(tag, TAG_HISTORY, i) ==> app::replied(s, tag, Reply::Dialogs(page), offset).0 == s,
{
    lemma_parse(tag, tag & TAG_KIND);
}

/// A page of the list is what the list becomes: the whole of it where it was asked for from the top,
/// and what is below it otherwise. The list is written as it then is, and one that did not parse only
/// ends the wait.
pub proof fn a_page_of_the_list_is_kept(s: AppView, page: proto::Dialogs, offset: int)
    ensures
        ({
            let (n, fx) = app::dialogs_came(s, Some(page), offset);
            &&& s.dialogs_from_top ==> n.store == (crate::model::StoreView {
                status: s.store.status,
                ..pages::first_store(page@, offset)
            }) && !n.dialogs_from_top
            &&& !s.dialogs_from_top ==> n.store == pages::after_dialogs(s.store, page@, offset)
                && !n.dialogs_from_top
            &&& fx.len() == 1
            &&& fx[0] matches DoView::Write(name, bytes)
            &&& name == "chats.bin"@
            &&& bytes == store_cache::enc_list(n.store.chats)
            &&& n.screen == s.screen
        }),
        ({
            let (n, fx) = app::dialogs_came(s, None, offset);
            &&& fx.len() == 0
            &&& n.store.chats == s.store.chats
            &&& !n.store.dialogs_loading
            &&& n.store.dialogs_complete == s.store.dialogs_complete
        }),
{
}

/// A refused request that is not a download's changes nothing; a lost connection is told on the login
/// screen in its own words; and signing in leads to the list and asks for it from the top.
pub proof fn a_report_of_the_driver_is_heard(
    s: AppView,
    tag: u32,
    words: String,
    why: &'static str,
    elsewhere: Option<u8>,
)
    ensures
        tag & TAG_KIND != TAG_FILE ==> app::reported(s, Outcome::RequestFailed(tag, words), elsewhere)
            == (s, Handled::Consumed, Seq::<DoView>::empty()),
        tag & TAG_KIND == TAG_FILE ==> {
            let (n, h, fx) = app::reported(s, Outcome::RequestFailed(tag, words), elsewhere);
            &&& h == Handled::Consumed
            &&& (n, fx) == app::file_refused(s, tag, words@, elsewhere)
        },
        ({
            let (n, h, fx) = app::reported(s, Outcome::Disconnected(why), elsewhere);
            &&& h == Handled::Consumed
            &&& fx.len() == 0
            &&& n.store == s.store
            &&& n.screen == s.screen
            &&& login_error(n.login.screen) == Some(why@)
        }),
        ({
            let (n, h, fx) = app::reported(s, Outcome::Authorized, elsewhere);
            &&& h == Handled::Consumed
            &&& fx.len() == 2
            &&& fx[0] == DoView::Ask(WantedView::FirstDialogs)
            &&& fx[1] == DoView::Bridge
            &&& n.dialogs_from_top
            &&& n.screen is Chats
            &&& n.screen->Chats_0.selected == 0
        }),
        app::reported(s, Outcome::Redraw, elsewhere).1 == Handled::Consumed,
        app::reported(s, Outcome::Redraw, elsewhere).0 == s,
        app::reported(s, Outcome::Nothing, elsewhere).1 == Handled::Ignored,
        app::reported(s, Outcome::Nothing, elsewhere).0 == s,
{
}

/// The error a login screen shows.
pub open spec fn login_error(s: login::ScreenView) -> Option<Seq<char>> {
    match s {
        login::ScreenView::Phone { error, .. } => error,
        login::ScreenView::Code { error, .. } => error,
        login::ScreenView::Password { error, .. } => error,
        login::ScreenView::Waiting(_) => None,
    }
}

// ---- keys -----------------------------------------------------------------------------------------

/// Choosing a chat opens that chat; leaving the list closes the application; and the list asks for
/// more of itself and not of a conversation.
pub proof fn the_list_does_what_it_is_told(s: AppView, i: usize)
    ensures
        app::list_acted(s, ChatListAction::Open(i)) == (
            s,
            Handled::Consumed,
            seq![DoView::ReadTail(i)],
        ),
        app::list_acted(s, ChatListAction::Exit).0.should_exit,
        app::list_acted(s, ChatListAction::Exit).2.len() == 0,
        app::list_acted(s, ChatListAction::Open(i)).0.should_exit == s.should_exit,
        app::list_acted(s, ChatListAction::LoadMore).2.len() <= 1,
        app::list_acted(s, ChatListAction::LoadMore).2.len() == 1 ==> (app::list_acted(
            s,
            ChatListAction::LoadMore,
        ).2[0] matches DoView::Ask(w) && w is MoreDialogs),
        app::list_acted(s, ChatListAction::LoadMore).2.len() == 1 <==> s.driver is Some
            && !s.store.dialogs_loading && !s.store.dialogs_complete,
        app::list_acted(s, ChatListAction::Refresh).2.len() == 1 ==> (app::list_acted(
            s,
            ChatListAction::Refresh,
        ).2[0] matches DoView::Ask(w) && w is TopDialogs),
        app::list_acted(s, ChatListAction::Refresh).2.len() == 1 <==> s.driver is Some
            && !s.store.dialogs_loading,
        app::list_acted(s, ChatListAction::Nothing) == (
            s,
            Handled::Ignored,
            Seq::<DoView>::empty(),
        ),
{
}

/// A conversation does what it is told: a link that is chosen is the one opened, what is copied is
/// what was chosen, and what was typed is what is sent, in this conversation.
pub proof fn a_conversation_does_what_it_is_told(
    s: AppView,
    i: usize,
    h: Handled,
    words: Seq<char>,
    message: usize,
    time: Seq<char>,
)
    requires
        i < s.store.chats.len(),
    ensures
        app::conv_acted(s, i, h, ConvActionView::OpenLink(words), time) == (
            s,
            Handled::Consumed,
            seq![DoView::OpenLink(words)],
        ),
        app::conv_acted(s, i, h, ConvActionView::Copy(words), time) == (
            s,
            Handled::Consumed,
            seq![DoView::Copy(words)],
        ),
        app::conv_acted(s, i, h, ConvActionView::Nothing, time) == (s, h, Seq::<DoView>::empty()),
        ({
            let (n, h2, fx) = app::conv_acted(s, i, h, ConvActionView::Send(words), time);
            let carried = s.store.chats[i as int].peer is Some && s.driver is Some;
            &&& h2 == Handled::Consumed
            &&& carried ==> {
                &&& fx.len() == 1
                &&& fx[0] matches DoView::Ask(WantedView::Message { chat, peer, text })
                &&& chat == i
                &&& text == words
                &&& s.store.chats[i as int].peer == Some(peer)
            }
            &&& !carried ==> fx.len() == 0
        }),
        ({
            let (n, h2, fx) = app::conv_acted(s, i, h, ConvActionView::LoadMore, time);
            &&& h2 == Handled::Consumed
            &&& fx.len() <= 1
            &&& fx.len() == 1 ==> (fx[0] matches DoView::Ask(WantedView::Older { chat, .. }) && chat
                == i)
        }),
        ({
            let (n, h2, fx) = app::conv_acted(s, i, h, ConvActionView::Refresh, time);
            &&& h2 == Handled::Consumed
            &&& fx.len() <= 1
            &&& fx.len() == 1 ==> (fx[0] matches DoView::Ask(
                WantedView::Newest { chat, noted, .. },
            ) && chat == i && noted)
            &&& fx.len() == 0 && s.screen is Conversation ==> n.screen is Conversation
                && n.screen->Conversation_0.note == Some(n.store.status)
        }),
        ({
            let (n, h2, fx) = app::conv_acted(s, i, h, ConvActionView::Back, time);
            &&& h2 == Handled::Consumed
            &&& n.screen is Chats
            &&& n.screen->Chats_0.selected == i
            &&& n.store == s.store
            &&& s.store.chats[i as int].messages.len() > 0 ==> (s.store.chats[i as int].peer
                matches Some(peer) ==> fx == seq![
                DoView::Write(
                    cache_files::tail_file(peer),
                    store_cache::enc_tail(s.store.chats[i as int]),
                ),
            ])
        }),
        ({
            let (n, h2, fx) = app::conv_acted(s, i, h, ConvActionView::OpenMedia(message), time);
            &&& h2 == Handled::Consumed
            &&& (n, fx) == app::downloading(s, i, message)
        }),
{
}

/// A key on a picture that does not lead back changes nothing.
pub proof fn a_picture_stays_until_it_is_left(s: AppView, i: usize, h: Handled)
    ensures
        app::viewer_keyed(s, i, h, false) == (s, h, Seq::<DoView>::empty()),
        i < s.store.chats.len() ==> app::viewer_keyed(s, i, h, true).0.screen
            == ScreenView::Conversation(conv::opened(i)),
        i >= s.store.chats.len() ==> app::viewer_keyed(s, i, h, true).0.screen is Chats,
        app::viewer_keyed(s, i, h, true).1 == Handled::Consumed,
        app::viewer_keyed(s, i, h, true).0.store == s.store,
{
}

/// The previews of a conversation follow its own cursor, in its own chat, and only while it is in
/// front.
pub proof fn previews_follow_the_cursor(s: AppView, i: usize)
    requires
        i < s.store.chats.len(),
    ensures
        s.screen matches ScreenView::Conversation(c) && c.chat == i ==> app::window(s, i) == seq![
            DoView::Previews { chat: i, selected: s.screen->Conversation_0.state.selected },
        ],
        s.screen matches ScreenView::Conversation(c) && c.chat != i ==> app::window(s, i).len() == 0,
        !(s.screen is Conversation) ==> app::window(s, i).len() == 0,
{
}

// ---- the moment -----------------------------------------------------------------------------------

/// A message that goes out carries the time of day at which it did; and a download says whether it
/// has to go to another data centre than that of the account.
pub proof fn what_goes_out_knows_when_and_where(
    s: AppView,
    i: usize,
    peer: PeerRef,
    words: Seq<char>,
    p: PendingView,
    sent: bool,
    now: int,
    offset: int,
)
    requires
        i < s.store.chats.len(),
        s.driver is Some,
    ensures
        ({
            let n = app::sent_on(
                s,
                WantedView::Message { chat: i, peer, text: words },
                sent,
                now,
                offset,
            );
            let last = n.store.chats[i as int].messages.last();
            &&& n.store.chats[i as int].messages.len() > 0
            &&& shows_time(last.time, now, offset)
            &&& last.text == words
        }),
        ({
            let n = app::sent_on(s, WantedView::First(p), true, now, offset);
            let home = match s.driver->0.home {
                Some(h) => h.dc as int,
                None => 0,
            };
            &&& n.pending == Some(p)
            &&& n.store.status == "baixando..."@ <==> p.dc == 0 || p.dc == home
        }),
{
    a_message_shows_in_its_own_conversation(
        s,
        i,
        peer,
        words,
        sent,
        driver::dc_of(s.driver->0),
        pages::clock(now, offset),
        0,
    );
    the_clock_shows_the_time_of_day(now, offset);
    reveal_strlit("baixando...");
    reveal_strlit("conectando ao servidor da midia...");
    assert("baixando..."@.len() != "conectando ao servidor da midia..."@.len());
}

/// A message that nobody can carry is shown at once, at the time the key was pressed.
pub proof fn a_key_that_sends_knows_when(s: AppView, p: app::Press, glyphs: Seq<char>, c: conv::ConvView)
    requires
        s.screen == ScreenView::Conversation(c),
        c.chat < s.store.chats.len(),
        s.driver is None,
        c.focus == Focus::Composer,
        c.composer.text.len() > 0,
        p.key == Key::Enter,
    ensures
        ({
            let n = app::keyed(s, p, glyphs).0;
            let last = n.store.chats[c.chat as int].messages.last();
            &&& n.store.chats[c.chat as int].messages.len() > 0
            &&& last.text == c.composer.text
            &&& shows_time(last.time, p.now as int, p.utc_offset as int)
        }),
{
    let time = pages::clock(p.now as int, p.utc_offset as int);
    the_clock_shows_the_time_of_day(p.now as int, p.utc_offset as int);
    let (to, a) = conv::dispatched(c);
    let m = s.showing(ScreenView::Conversation(to));
    crate::app_laws::a_sent_message_shows_at_once(m, c.chat, c.composer.text, false, time);
    let chat = m.store.chats[c.chat as int];
    let all = pages::appended(
        chat,
        app::own_message(c.composer.text, time, Delivery::Pending),
    );
    let kept = pages::trimmed(all);
    assert(kept.messages.last() == all.messages.last());
    assert(app::keyed(s, p, glyphs).0 == app::posted(m, c.chat, c.composer.text, false, time));
}

/// A page that came above leaves the cursor on the bubble it was on, and takes away the note that said
/// it was being read again; any other note stays.
pub proof fn a_page_above_moves_the_cursor_along(c: conv::ConvView, n: int)
    requires
        0 <= n,
        c.state.selected + n <= usize::MAX,
    ensures
        app::reread(c, n).state.selected == c.state.selected + n,
        app::reread(c, n).state.scroll == c.state.scroll,
        c.note == Some("recarregando..."@) ==> app::reread(c, n).note is None,
        c.note != Some("recarregando..."@) ==> app::reread(c, n).note == c.note,
        app::reread(c, n).composer == c.composer,
        app::reread(c, n).focus == c.focus,
        app::reread(c, n).chat == c.chat,
        app::reread(c, n).link == c.link,
        app::reread(c, n).transcript == c.transcript,
{
}

/// What is said of a decode: where it failed, its code; and where it was stuck, what it read from and
/// how far it got.
pub proof fn a_decode_that_fails_is_said(
    s: AppView,
    i: usize,
    data: Seq<u8>,
    code: i32,
    p: app::DecodeProgress,
)
    requires
        s.decoding is Some,
    ensures
        app::decode_ended(s, Decoded::Failed(code)).0.store.status == "decode falhou: "@
            + signed_decimal(code as int),
        app::decode_ended(s, Decoded::NoPicture(code)).0.store.status == "decode sem pixels: "@
            + signed_decimal(code as int),
        app::decode_ended(s, Decoded::Picture).0.store.status.len() == 0,
        app::decode_begun(s, i, data, DecodeStart::Refused(code)).0.store.status
            == "decode recusou: "@ + signed_decimal(code as int),
        app::decode_begun(s, i, data, DecodeStart::NoFile).0.store.status
            == "decode: sem arquivo para decodificar"@,
        app::decode_begun(s, i, data, DecodeStart::Begun).0.decode_src == "cage",
        app::decode_stuck(s, None).0.store.status == "travou: decoder sumiu"@,
        ({
            let w = app::decode_stuck(s, Some(p)).0.store.status;
            w == "travou "@ + s.decode_src@ + " "@ + signed_decimal(p.native_w as int) + "x"@
                + signed_decimal(p.native_h as int) + " f"@ + signed_decimal(p.frames as int)
                + " r"@ + signed_decimal(p.factor as int) + " a"@ + signed_decimal(
                if p.active {
                    1int
                } else {
                    0
                },
            ) + " m"@ + signed_decimal(p.mode as int) + " fl"@ + app::hex_words(
                p.frame_flags as nat,
            ) + " c"@ + signed_decimal(p.continues as int)
        }),
        app::decode_stuck(s, Some(p)).0.decoding is None,
        app::decode_stuck(s, Some(p)).0.decode_watchdog is None,
{
}

/// What is said of a download elsewhere names the place.
pub proof fn a_download_elsewhere_says_where(s: AppView, p: PendingView, home: u8, time: Seq<char>)
    ensures
        app::went_out(
            s,
            WantedView::Elsewhere { req: p.req, dc: p.dc },
            true,
            home,
            time,
        ).store.status == "buscando no servidor "@ + signed_decimal(p.dc as int) + "..."@,
        app::went_out(s, WantedView::Next(p), true, home, time).store.status == "baixando "@
            + signed_decimal((p.got.len() / 1024) as int) + " KB..."@,
{
}

/// What cannot be done is said, and says why: what is already under way, whom it would be asked of, or
/// what is missing.
pub proof fn what_cannot_be_done_says_why(s: AppView, i: usize, message: usize, noted: bool, m: MediaView)
    requires
        carries(s, i, message, m),
    ensures
        ({
            let c = s.store.chats[i as int];
            let said = app::newest(s, i, noted).0.store.status;
            &&& c.loading ==> said == "ja atualizando..."@
            &&& !c.loading && c.peer is None ==> said == "sem peer"@
            &&& !c.loading && c.peer is Some && s.driver is None ==> said == "sem conexao"@
            &&& !c.loading && c.peer is Some && s.driver is Some ==> said == s.store.status
        }),
        !s.store.dialogs_loading && s.driver is None ==> app::top_dialogs(s).0.store.status == (
        match s.lang {
            Lang::En => "no connection"@,
            Lang::Pt => "sem conexão"@,
        }),
        s.driver is Some && !s.store.dialogs_loading ==> app::top_dialogs(s).0.store.status
            == s.store.status,
        ({
            let (n, fx) = app::downloading(s, i, message);
            &&& m matches MediaView::Sticker { preview, .. } ==> (preview is None ==> n.store.status
                == "sticker: formato WebP, sem decoder"@ && fx.len() == 0)
            &&& m is Unknown ==> n.store.status == "download: nada para baixar"@ && fx.len() == 0
            &&& m matches MediaView::Photo { preview, thumb_size, .. } ==> (preview is None
                && thumb_size.len() == 0 ==> n.store.status == "download: nada para baixar"@
                && fx.len() == 0)
            &&& m matches MediaView::Photo { preview, .. } ==> (preview is Some ==> n.store.status
                == "decode: sem arquivo para decodificar"@ && n.decoding is None)
        }),
        can_be_had(m) ==> {
            let (n, fx) = app::looked_up(s, i, message, None);
            &&& s.pending is Some ==> n.store.status == "download: aguarde o anterior"@ && fx.len()
                == 0
            &&& s.pending is None && s.driver is None ==> n.store.status == "download: sem driver"@
                && fx.len() == 0
        },
        forall|data: Seq<u8>|
            can_be_had(m) ==> (#[trigger] app::looked_up(s, i, message, Some(data))).0.store.status
                == (match m {
                MediaView::Photo { .. } => "do cache"@,
                MediaView::File { .. } => "arquivo: "@ + signed_decimal((data.len() / 1024) as int)
                    + " KB, no cache"@,
                _ => "audio: sem suporte ainda"@,
            }),
{
}

/// A message without anything attached has nothing to open, and that is said.
pub proof fn nothing_attached_is_said(s: AppView, i: usize, message: usize)
    requires
        i < s.store.chats.len(),
        message < s.store.chats[i as int].messages.len(),
        s.store.chats[i as int].messages[message as int].media is None,
    ensures
        app::downloading(s, i, message).0.store.status == "download: sem media"@,
        app::downloading(s, i, message).1.len() == 0,
        app::looked_up(s, i, message, None).0 == s,
        app::looked_up(s, i, message, None).1.len() == 0,
{
}

/// What ends a download is said: that it is too large, that it was broken off, that there is nothing
/// to show it with, or that there is no way to where it lives.
pub proof fn the_end_of_a_download_is_said(
    s: AppView,
    p: PendingView,
    b: Seq<u8>,
    home: u8,
    time: Seq<char>,
    tag: u32,
    words: Seq<char>,
    dc: u8,
)
    requires
        s.pending == Some(p),
    ensures
        ({
            let (n, fx) = app::chunk_came(s, Some(b));
            let all = (p.got.len() + b.len()) as int;
            &&& all > app::MAX_FILE_BYTES ==> n.store.status == "arquivo grande demais ("@
                + signed_decimal(all / 1024) + " KB)"@ && fx.len() == 0
            &&& all <= app::MAX_FILE_BYTES && b.len() == app::CHUNK && s.driver is None
                ==> n.store.status == "download: interrompido"@ && fx.len() == 0
            &&& all <= app::MAX_FILE_BYTES && b.len() != app::CHUNK && p.kind == MediaKind::File
                ==> n.store.status == "arquivo: "@ + signed_decimal(all / 1024)
                + " KB, sem visualizador"@
            &&& all <= app::MAX_FILE_BYTES && b.len() != app::CHUNK && (p.kind == MediaKind::Voice
                || p.kind == MediaKind::Audio) ==> n.store.status == "audio: sem suporte ainda"@
        }),
        app::went_out(s, WantedView::First(p), false, home, time).store.status
            == "download: fila (link ocupado)"@,
        app::went_out(s, WantedView::Next(p), false, home, time).store.status
            == "download: interrompido"@,
        app::went_out(
            s,
            WantedView::Elsewhere { req: p.req, dc },
            false,
            home,
            time,
        ).store.status == "download: outro servidor, sem rota"@,
        !crate::text::has_prefix(words, "FILE_REFERENCE_EXPIRED"@) && s.driver is None ==> {
            let (n, fx) = app::file_refused(s, tag, words, Some(dc));
            &&& n.store.status == "download: outro servidor, sem rota"@
            &&& n.pending is None
            &&& fx.len() == 0
        },
{
}

/// A reference that expired under a download that is not there any more asks for what its tag names.
pub proof fn an_expired_reference_without_a_download(s: AppView, tag: u32, i: usize, words: Seq<char>)
    requires
        s.pending is None,
        s.driver is Some,
        i <= TAG_INDEX,
        says(tag, TAG_FILE, i),
        i < s.store.chats.len(),
        s.store.chats[i as int].peer is Some,
        crate::text::has_prefix(words, "FILE_REFERENCE_EXPIRED"@),
    ensures
        ({
            let (n, fx) = app::file_refused(s, tag, words, None);
            &&& fx.len() == 1
            &&& fx[0] matches DoView::Ask(WantedView::Again { chat, peer, message })
            &&& chat == i
            &&& message == 0
            &&& Some(peer) == s.store.chats[i as int].peer
        }),
{
}

/// What is said stands in the status line, and on the conversation in front where there is one, and
/// changes nothing else.
pub proof fn saying_changes_nothing_else(s: AppView, words: Seq<char>)
    ensures
        ({
            let n = s.saying(words);
            &&& n.store.status == words
            &&& n.store.chats == s.store.chats
            &&& n.store.dialogs_loading == s.store.dialogs_loading
            &&& n.store.dialogs_complete == s.store.dialogs_complete
            &&& n.driver == s.driver
            &&& n.login == s.login
            &&& n.pending == s.pending
            &&& n.decoding == s.decoding
            &&& n.decode_watchdog == s.decode_watchdog
            &&& n.should_exit == s.should_exit
            &&& s.screen matches ScreenView::Conversation(c) ==> n.screen
                == ScreenView::Conversation(conv::ConvView { note: Some(words), ..c })
            &&& !(s.screen is Conversation) ==> n.screen == s.screen
        }),
{
}

// ---- the beginning --------------------------------------------------------------------------------

/// An application begins with nothing under way.
pub proof fn nothing_is_under_way_at_first(
    d: Option<DriverView>,
    store: crate::model::StoreView,
    l: login::LoginView,
    screen: ScreenView,
)
    ensures
        ({
            let s = app::started(d, store, l, screen);
            &&& s.driver == d
            &&& s.store == store
            &&& s.login == l
            &&& s.screen == screen
            &&& !s.should_exit
            &&& s.opening_chat is None
            &&& s.dialogs_from_top
            &&& s.pending is None
            &&& s.decoding is None
            &&& s.decode_watchdog is None
        }),
{
}

/// The application is launched at the login, on an empty phone screen, with the list its file held,
/// and with a moment to draw before it connects. It can log in exactly where it has both credentials.
pub proof fn the_login_is_launched(id: i32, hash: Seq<char>, list: Option<Seq<u8>>)
    ensures
        ({
            let (s, fx) = app_run::launched(id, hash, list);
            &&& s.screen is Login
            &&& s.login.screen matches login::ScreenView::Phone { field, error }
            &&& field.text.len() == 0
            &&& !field.masked
            &&& error is None
            &&& s.login.api_id == id
            &&& s.login.api_hash_empty <==> hash.len() == 0
            &&& !s.login.authorized
            &&& !s.login.connected
            &&& !s.login.code_sent
            &&& !s.login.password_needed
            &&& s.login.phone.len() == 0
            &&& list is None ==> s.store.chats.len() == 0
            &&& list matches Some(b) ==> match store_cache::decoded_list(b) {
                Some(chats) => s.store.chats == chats,
                None => s.store.chats.len() == 0,
            }
            &&& !s.store.dialogs_loading
            &&& !s.store.dialogs_complete
            &&& s.store.dialog_offset_date == 0
            &&& s.store.dialog_offset_id == 0
            &&& s.store.dialog_offset_peer is None
            &&& s.driver matches Some(d)
            &&& d.home is None
            &&& d.file_dc is None
            &&& d.queued is None
            &&& d.pending_call.len() == 0
            &&& !d.persisted
            &&& d.retries == 0
            &&& d.connect_timer is None
            &&& d.reconnect_timer is None
            &&& d.stuck_timer is None
            &&& fx == seq![
                driver::FxView::Do(driver::Effect::SetTimer(driver::Purpose::Connect, 150)),
            ]
            &&& s.pending is None
            &&& s.dialogs_from_top
        }),
{
}

/// The samples agree with themselves: whether the last message of a row is one's own is so of its last
/// message, each row has a name and a message, and nothing of them is with a peer.
pub proof fn the_samples_agree_with_themselves(i: int)
    requires
        0 <= i < samples::sample_chats().len(),
    ensures
        samples::sample_chats().len() == 7,
        samples::sample_chats()[i].messages.len() > 0,
        samples::sample_chats()[i].last_outgoing == samples::sample_chats()[i].messages.last().outgoing,
        samples::sample_chats()[i].peer is None,
        samples::sample_chats()[0].unread == 2,
        samples::sample_chats()[0].messages.len() == 9,
        samples::sample_chats()[1].unread == 17,
        samples::sample_chats()[6].unread == 1,
        2 <= i <= 5 ==> samples::sample_chats()[i].unread == 0,
        samples::sample_store().chats == samples::sample_chats(),
        samples::sample_store().status == "conectado"@,
{
}

} // verus!
