//! The application at work: one method for each thing that can happen.

use crate::app;
use crate::app::{
    also, ask, just, none, App, AppView, CHUNK, DecodeProgress, DecodeStart, Decoded, Do, DoView,
    MAX_FILE_BYTES, Parse, PendingFile, PendingView, Press, Raw, RawNext, Reply, RequestView,
    Screen, ScreenView, Wanted, WantedView,
};
use crate::cache_files;
use crate::cache_files::{load_tail, save_list, save_tail, FileWrite};
use crate::chats;
use crate::chats::{ChatList, ChatListAction};
use crate::conv::{ConvAction, ConvView, Conversation};
use crate::driver;
use crate::driver::{
    Call, Driver, Effect, Event, Expected, FileRequest, Outcome, Purpose, TAG_DIALOGS, TAG_FILE,
    TAG_HISTORY, TAG_INDEX, TAG_KIND, TAG_REFRESH, TAG_SEND,
};
use crate::labels::Atlas;
use crate::login;
use crate::login::{Action, Login, LoginAction, LoginView};
use crate::model;
use crate::model::{
    copy_bytes, Chat, ChatView, Delivery, Media, MediaKind, Message, PeerRef, Store, StoreView,
};
use crate::pages;
use crate::pages::{
    hhmm, merge_dialogs, merge_history, push_message, refresh_media, store_from_dialogs,
};
use crate::proto;
use crate::samples;
use crate::strings::{no_connection, Lang};
use crate::text;
use crate::text::{hex_char, push_i64, push_u64, same, starts_with};
use crate::ui::{Answer, Ask, Edit, Handled, Key, ListState};
use vstd::prelude::*;
use vstd::string::*;

verus! {

// ---- text -----------------------------------------------------------------------------------------

fn kilobytes(before: &str, n: usize, after: &str) -> (r: String)
    ensures
        r@ == app::kilobytes(before@, n as nat, after@),
{
    let mut s = before.to_owned();
    push_u64(&mut s, (n / 1024) as u64);
    s.append(after);
    s
}

fn with_code(before: &str, code: i32) -> (r: String)
    ensures
        r@ == before@ + text::signed_decimal(code as int),
{
    let mut s = before.to_owned();
    push_i64(&mut s, code as i64);
    s
}

fn push_hex_plain(s: &mut String, v: u32)
    ensures
        final(s)@ == old(s)@ + app::hex_words(v as nat),
    decreases v,
{
    let ghost start = s@;
    if v >= 16 {
        push_hex_plain(s, v / 16);
    }
    let d: u8 = (v % 16) as u8;
    s.push(hex_char(d));
    assert(s@ =~= start + app::hex_words(v as nat));
}

impl App {
    /// What some bytes look like, in one line, before they are handed to a codec.
    pub fn describe_bytes(data: &[u8]) -> (r: String)
        ensures
            r@ == app::shape(data@),
    {
        let n: usize = data.len();
        let mut s = String::new();
        push_u64(&mut s, n as u64);
        assert(s@ =~= text::decimal(n as nat));
        if n >= 2 && data[0] == 0xff && data[1] == 0xd8 {
            s.append("B SOI");
        } else {
            s.append("B no-SOI");
        }
        if n >= 2 && data[n - 2] == 0xff && data[n - 1] == 0xd9 {
            s.append("+EOI");
        } else {
            s.append("+NO-EOI");
        }
        s
    }
}

fn stuck_text(src: &str, p: Option<DecodeProgress>) -> (r: String)
    ensures
        r@ == app::stuck_words(src@, p),
{
    match p {
        None => "travou: decoder sumiu".to_owned(),
        Some(p) => {
            let mut s = "travou ".to_owned();
            s.append(src);
            s.append(" ");
            push_i64(&mut s, p.native_w as i64);
            s.append("x");
            push_i64(&mut s, p.native_h as i64);
            s.append(" f");
            push_i64(&mut s, p.frames as i64);
            s.append(" r");
            push_i64(&mut s, p.factor as i64);
            s.append(" a");
            push_u64(
                &mut s,
                if p.active {
                    1
                } else {
                    0
                },
            );
            s.append(" m");
            push_i64(&mut s, p.mode as i64);
            s.append(" fl");
            push_hex_plain(&mut s, p.frame_flags);
            s.append(" c");
            push_i64(&mut s, p.continues as i64);
            s
        },
    }
}

/// A copy of a request.
pub fn copy_request(r: &FileRequest) -> (c: FileRequest)
    ensures
        app::request_view(c) == app::request_view(*r),
{
    FileRequest {
        chat: r.chat,
        is_photo: r.is_photo,
        id: r.id,
        access_hash: r.access_hash,
        file_reference: copy_bytes(r.file_reference.as_slice()),
        thumb_size: r.thumb_size.clone(),
        offset: r.offset,
    }
}

// ---- small changes --------------------------------------------------------------------------------

impl App {
    fn set_status(&mut self, words: String)
        ensures
            final(self)@ == old(self)@.with_status(words@),
    {
        let ghost before = self@;
        self.store.status = words;
        assert(self@.store =~= before.with_status(words@).store);
        assert(self@ =~= before.with_status(words@));
    }

    fn set_note(&mut self, note: String)
        ensures
            final(self)@ == old(self)@.noting(Some(note@)),
    {
        let ghost before = self@;
        let ghost words = note@;
        match &mut self.screen {
            Screen::Conversation(c) => {
                c.note = Some(note);
            },
            _ => {},
        }
        assert(before.screen is Conversation ==> self.screen is Conversation
            && self.screen->Conversation_0@ =~= (ConvView {
            note: Some(words),
            ..before.screen->Conversation_0
        }));
        assert(self@ =~= before.noting(Some(words)));
    }

    /// Say something, wherever the user is looking.
    ///
    /// The status line is on the list's title bar, and a conversation has its own: what is only put
    /// into the first is not seen by someone who reads a conversation.
    fn say(&mut self, words: String)
        ensures
            final(self)@ == old(self)@.saying(words@),
    {
        let copy = words.clone();
        self.set_note(copy);
        self.set_status(words);
    }

    fn show(&mut self, screen: Screen)
        ensures
            final(self)@ == old(self)@.showing(screen@),
    {
        let ghost before = self@;
        self.screen = screen;
        assert(self@ =~= before.showing(screen@));
    }

    /// Note a chat that is wanted, loading or complete.
    fn set_loading(&mut self, i: usize, loading: bool, complete: bool)
        requires
            i < old(self)@.store.chats.len(),
        ensures
            final(self)@ == old(self)@.with_chat(
                i,
                ChatView { loading, complete, ..old(self)@.store.chats[i as int] },
            ),
    {
        let ghost before = self@;
        let ghost was = self.store.chats@;
        self.store.chats[i].loading = loading;
        self.store.chats[i].complete = complete;
        let ghost c = ChatView { loading, complete, ..before.store.chats[i as int] };
        assert(self.store.chats@[i as int]@ =~= c);
        proof {
            lemma_one_chat(was, self.store.chats@, i as int);
        }
        assert(self@.store =~= before.with_chat(i, c).store);
        assert(self@ =~= before.with_chat(i, c));
    }
}

/// Chats of which one changed are the chats with that one put in.
proof fn lemma_one_chat(before: Seq<Chat>, after: Seq<Chat>, i: int)
    requires
        0 <= i < before.len(),
        before.len() == after.len(),
        forall|k: int| 0 <= k < before.len() && k != i ==> #[trigger] after[k] == before[k],
    ensures
        model::chat_views(after) == model::chat_views(before).update(i, after[i]@),
{
    assert(model::chat_views(after) =~= model::chat_views(before).update(i, after[i]@));
}

// ---- wishes ---------------------------------------------------------------------------------------

impl App {
    /// Ask for the page of dialogs below those that are held.
    pub fn load_more_dialogs(&mut self) -> (r: Option<Wanted>)
        ensures
            (final(self)@, app::wanted_opt(r)) == app::more_dialogs(old(self)@),
    {
        let ghost before = self@;
        if self.store.dialogs_loading || self.store.dialogs_complete {
            return None;
        }
        self.dialogs_from_top = false;
        if self.driver.is_none() {
            self.store.dialogs_complete = true;
            assert(self@.store =~= app::more_dialogs(before).0.store);
            assert(self@ =~= app::more_dialogs(before).0);
            return None;
        }
        self.store.dialogs_loading = true;
        assert(self@.store =~= app::more_dialogs(before).0.store);
        assert(self@ =~= app::more_dialogs(before).0);
        Some(
            Wanted::MoreDialogs {
                date: self.store.dialog_offset_date,
                id: self.store.dialog_offset_id,
                after: self.store.dialog_offset_peer,
            },
        )
    }

    /// Ask for the list from the top. Nothing is pushed to this client, so the list is as fresh as
    /// its last page.
    pub fn refresh_dialogs(&mut self) -> (r: Option<Wanted>)
        ensures
            (final(self)@, app::wanted_opt(r)) == app::top_dialogs(old(self)@),
    {
        if self.store.dialogs_loading {
            self.set_status("ja atualizando...".to_owned());
            return None;
        }
        if self.driver.is_none() {
            self.set_status(no_connection(self.lang).to_owned());
            return None;
        }
        Some(Wanted::TopDialogs)
    }

    /// Ask for the newest page of a conversation, for the same reason.
    pub fn refresh_conversation(&mut self, chat: usize, noted: bool) -> (r: Option<Wanted>)
        ensures
            (final(self)@, app::wanted_opt(r)) == app::newest(old(self)@, chat, noted),
    {
        if chat >= self.store.chats.len() {
            return None;
        }
        assert(self@.store.chats[chat as int] == self.store.chats@[chat as int]@);
        if self.store.chats[chat].loading {
            self.set_status("ja atualizando...".to_owned());
            return None;
        }
        match self.store.chats[chat].peer {
            None => {
                self.set_status("sem peer".to_owned());
                None
            },
            Some(peer) => {
                if self.driver.is_none() {
                    self.set_status("sem conexao".to_owned());
                    return None;
                }
                Some(Wanted::Newest { chat, peer, noted })
            },
        }
    }

    /// Ask for the page above what a conversation holds.
    pub fn load_older(&mut self, chat: usize) -> (r: Option<Wanted>)
        ensures
            (final(self)@, app::wanted_opt(r)) == app::older(old(self)@, chat),
    {
        let ghost before = self@;
        if chat >= self.store.chats.len() {
            return None;
        }
        assert(self@.store.chats[chat as int] == self.store.chats@[chat as int]@);
        let c = &self.store.chats[chat];
        if c.loading || c.complete || c.windowed {
            return None;
        }
        let offset: i32 = c.oldest;
        match c.peer {
            None => None,
            Some(peer) => {
                if self.driver.is_none() {
                    self.set_loading(chat, false, true);
                    return None;
                }
                self.set_loading(chat, true, false);
                Some(Wanted::Older { chat, peer, offset })
            },
        }
    }

    /// Ask for one message again, for a fresh file reference.
    pub fn refresh_message(&mut self, chat: usize, message: i32) -> (r: Option<Wanted>)
        ensures
            (final(self)@, app::wanted_opt(r)) == app::again(old(self)@, chat, message),
    {
        let peer = self.peer_of(chat);
        match peer {
            None => {
                self.set_status("refresh: sem peer".to_owned());
                None
            },
            Some(peer) => if self.driver.is_some() {
                Some(Wanted::Again { chat, peer, message })
            } else {
                None
            },
        }
    }

    fn peer_of(&self, chat: usize) -> (r: Option<PeerRef>)
        ensures
            r == self@.peer(chat),
    {
        if chat >= self.store.chats.len() {
            return None;
        }
        assert(self@.store.chats[chat as int] == self.store.chats@[chat as int]@);
        self.store.chats[chat].peer
    }

    fn post(&mut self, chat: usize, words: String, accepted: bool, time: String)
        requires
            chat < old(self)@.store.chats.len(),
        ensures
            final(self)@ == app::posted(old(self)@, chat, words@, accepted, time@),
    {
        let ghost before = self@;
        let ghost was = self.store.chats@;
        let state = if self.driver.is_some() && !accepted {
            Delivery::Failed
        } else {
            Delivery::Pending
        };
        let m = Message { id: 0, text: words, outgoing: true, time, state, media: None };
        assert(m@ == app::own_message(words@, time@, state));
        let _dropped: usize = push_message(&mut self.store.chats[chat], m);
        self.store.chats[chat].last_outgoing = true;
        let ghost c = ChatView {
            last_outgoing: true,
            ..pages::trimmed(pages::appended(before.store.chats[chat as int], m@))
        };
        assert(self.store.chats@[chat as int]@ =~= c);
        proof {
            lemma_one_chat(was, self.store.chats@, chat as int);
        }
        assert(self@.store =~= before.with_chat(chat, c).store);
        assert(self@ =~= before.with_chat(chat, c));
        let talking: bool = match &self.screen {
            Screen::Conversation(_) => true,
            _ => false,
        };
        if talking {
            // Laid out again, and down at the new message.
            self.show(Screen::Conversation(Conversation::new(chat)));
        }
    }

    /// Send what was typed. It is put at the end of the conversation at once, or as soon as it is
    /// known whether it went out.
    pub fn send(&mut self, chat: usize, words: String, time: String) -> (r: Option<Wanted>)
        requires
            chat < old(self)@.store.chats.len(),
        ensures
            (final(self)@, app::wanted_opt(r)) == app::sending(old(self)@, chat, words@, time@),
    {
        let peer = self.peer_of(chat);
        match peer {
            Some(peer) => {
                if self.driver.is_some() {
                    return Some(Wanted::Message { chat, peer, text: words });
                }
                self.post(chat, words, false, time);
                None
            },
            None => {
                self.post(chat, words, false, time);
                None
            },
        }
    }

    /// Open a conversation, from what its file held where it has been read before.
    pub fn open_chat(&mut self, i: usize, file: Option<&[u8]>) -> (r: Vec<Do>)
        ensures
            ({
                let (n, w) = app::opening(old(self)@, i, cache_files::file_opt(file));
                final(self)@ == n && app::do_views(r@) == app::asking(w)
            }),
    {
        let ghost before = self@;
        let ghost was = self.store.chats@;
        if i >= self.store.chats.len() {
            return none();
        }
        self.store.chats[i].unread = 0;
        let ghost read = ChatView { unread: 0, ..before.store.chats[i as int] };
        assert(self.store.chats@[i as int]@ =~= read);
        let restored: bool = load_tail(&mut self.store.chats[i], file);
        let ghost held = before.with_chat(
            i,
            cache_files::refilled(read, cache_files::file_opt(file)),
        );
        proof {
            lemma_one_chat(was, self.store.chats@, i as int);
        }
        assert(self@.store =~= held.store);
        assert(self@ =~= held);
        if self.driver.is_some() && !restored {
            self.opening_chat = Some(i);
            assert(self@ =~= (AppView { opening_chat: Some(i), ..held }));
        } else {
            self.show(Screen::Conversation(Conversation::new(i)));
        }
        let w = if restored {
            // From the top: what a restored conversation lacks is what came since.
            self.refresh_conversation(i, false)
        } else {
            self.load_older(i)
        };
        ask(w)
    }
}

// ---- downloads ------------------------------------------------------------------------------------

impl App {
    fn start_photo_decode(&mut self, chat: usize, id: Option<i64>, data: Vec<u8>) -> (r: Vec<Do>)
        ensures
            (final(self)@, app::do_views(r@)) == app::decoding(old(self)@, chat, id, data@),
    {
        let ghost before = self@;
        let mut fx = none();
        if self.decoding.is_some() {
            also(&mut fx, Do::ReleaseDecoder);
        }
        self.decoding = None;
        assert(self@ =~= (AppView { decoding: None, ..before }));
        assert(app::do_views(fx@) =~= if before.decoding is Some {
            seq![DoView::ReleaseDecoder]
        } else {
            seq![]
        });
        match id {
            Some(id) => {
                also(&mut fx, Do::Decode { chat, id, data });
            },
            None => {
                self.say("decode: sem arquivo para decodificar".to_owned());
            },
        }
        fx
    }

    /// Fetch what a message carries, because someone pressed on it. Nothing is fetched anywhere else:
    /// scrolling through photos must cost nothing.
    pub fn download_media(&mut self, chat: usize, message: usize) -> (r: Vec<Do>)
        ensures
            (final(self)@, app::do_views(r@)) == app::downloading(old(self)@, chat, message),
    {
        if chat >= self.store.chats.len() {
            self.say("download: sem media".to_owned());
            return none();
        }
        assert(self@.store.chats[chat as int] == self.store.chats@[chat as int]@);
        if message >= self.store.chats[chat].messages.len() {
            self.say("download: sem media".to_owned());
            return none();
        }
        assert(self@.store.chats[chat as int].messages[message as int]
            == self.store.chats@[chat as int].messages@[message as int]@);
        let media = match &self.store.chats[chat].messages[message].media {
            Some(m) => m,
            None => {
                self.say("download: sem media".to_owned());
                return none();
            },
        };
        let inline: Option<Vec<u8>> = match media.preview() {
            Some(b) => Some(copy_bytes(b)),
            None => None,
        };
        let sticker: bool = match media {
            Media::Sticker { .. } => true,
            _ => false,
        };
        let kind = media.kind();
        let id: i64 = media.file_id();
        match inline {
            Some(bytes) => self.start_photo_decode(chat, None, bytes),
            None => {
                if sticker {
                    // No codec here opens one, so fetching it would arrive at the placeholder.
                    self.say("sticker: formato WebP, sem decoder".to_owned());
                    return none();
                }
                if kind.is_none() {
                    self.say("download: nada para baixar".to_owned());
                    return none();
                }
                just(Do::LookUp { chat, message, id })
            },
        }
    }

    fn request_for(&self, chat: usize, message: usize) -> (r: Option<(PendingFile)>)
        ensures
            (match r {
                Some(p) => {
                    &&& app::media_at(self@, chat, message) is Some
                    &&& app::media_at(self@, chat, message)->0.kind() is Some
                    &&& p@ == (PendingView {
                        msg_id: self@.chat(chat)->0.messages[message as int].id,
                        kind: app::media_at(self@, chat, message)->0.kind()->0,
                        dc: app::media_at(self@, chat, message)->0.dc_id() as u8,
                        req: app::first_request(app::media_at(self@, chat, message)->0, chat),
                        got: seq![],
                    })
                },
                None => app::media_at(self@, chat, message) is None || app::media_at(
                    self@,
                    chat,
                    message,
                )->0.kind() is None,
            }),
    {
        if chat >= self.store.chats.len() {
            return None;
        }
        assert(self@.store.chats[chat as int] == self.store.chats@[chat as int]@);
        if message >= self.store.chats[chat].messages.len() {
            return None;
        }
        assert(self@.store.chats[chat as int].messages[message as int]
            == self.store.chats@[chat as int].messages@[message as int]@);
        let m = &self.store.chats[chat].messages[message];
        let media = match &m.media {
            Some(x) => x,
            None => {
                return None;
            },
        };
        let kind = match media.kind() {
            Some(k) => k,
            None => {
                return None;
            },
        };
        let (access_hash, file_reference): (i64, Vec<u8>) = match media {
            Media::Photo { access_hash, file_reference, .. } => (
                *access_hash,
                copy_bytes(file_reference.as_slice()),
            ),
            Media::Voice { access_hash, file_reference, .. } => (
                *access_hash,
                copy_bytes(file_reference.as_slice()),
            ),
            Media::Audio { access_hash, file_reference, .. } => (
                *access_hash,
                copy_bytes(file_reference.as_slice()),
            ),
            Media::File { access_hash, file_reference, .. } => (
                *access_hash,
                copy_bytes(file_reference.as_slice()),
            ),
            Media::Sticker { access_hash, file_reference, .. } => (
                *access_hash,
                copy_bytes(file_reference.as_slice()),
            ),
            Media::Unknown => {
                return None;
            },
        };
        let (is_photo, thumb_size): (bool, String) = match media {
            Media::Photo { thumb_size, .. } => (true, thumb_size.clone()),
            _ => (false, String::new()),
        };
        let req = FileRequest {
            chat,
            is_photo,
            id: media.file_id(),
            access_hash,
            file_reference,
            thumb_size,
            offset: 0,
        };
        assert(app::request_view(req) =~= app::first_request(media@, chat));
        let p = PendingFile {
            msg_id: m.id,
            kind,
            dc: media.dc_id() as u8,
            req,
            got: Vec::new(),
        };
        assert(p@.got =~= seq![]);
        Some(p)
    }

    /// The media cache was searched for what a message carries. A hit costs nothing on the wire and
    /// needs no file reference, so it cannot have expired.
    pub fn on_cached(&mut self, chat: usize, message: usize, cached: Option<Vec<u8>>) -> (r: Vec<Do>)
        ensures
            (final(self)@, app::do_views(r@)) == app::looked_up(
                old(self)@,
                chat,
                message,
                proto::bytes_opt(cached),
            ),
    {
        let p = match self.request_for(chat, message) {
            Some(p) => p,
            None => {
                return none();
            },
        };
        match cached {
            Some(data) => match p.kind {
                MediaKind::Photo => {
                    let id: i64 = p.req.id;
                    self.say("do cache".to_owned());
                    self.start_photo_decode(chat, Some(id), data)
                },
                MediaKind::File => {
                    let words = kilobytes("arquivo: ", data.len(), " KB, no cache");
                    self.say(words);
                    none()
                },
                _ => {
                    self.say("audio: sem suporte ainda".to_owned());
                    none()
                },
            },
            None => {
                // One at a time: a reply carries bytes and the chat, and two could not be told apart.
                if self.pending.is_some() {
                    self.say("download: aguarde o anterior".to_owned());
                    return none();
                }
                if self.driver.is_none() {
                    self.say("download: sem driver".to_owned());
                    return none();
                }
                just(Do::Ask(Wanted::First(p)))
            },
        }
    }

    fn show_downloaded_file(&mut self, chunk: Option<Vec<u8>>) -> (r: Vec<Do>)
        ensures
            (final(self)@, app::do_views(r@)) == app::chunk_came(
                old(self)@,
                proto::bytes_opt(chunk),
            ),
    {
        let ghost before = self@;
        let pending = self.pending.take();
        assert(self@ =~= (AppView { pending: None, ..before }));
        let mut b = match chunk {
            Some(b) => b,
            None => {
                self.say("download: parse falhou".to_owned());
                return none();
            },
        };
        let mut p = match pending {
            Some(p) => p,
            None => {
                self.say("download: sem pedido correspondente".to_owned());
                return none();
            },
        };
        let full: bool = b.len() == CHUNK;
        let ghost got = p.got@ + b@;
        p.got.append(&mut b);
        assert(p.got@ =~= got);
        if p.got.len() > MAX_FILE_BYTES {
            let words = kilobytes("arquivo grande demais (", p.got.len(), " KB)");
            self.say(words);
            return none();
        }
        if full {
            // From where this one ended, and on the same connection.
            p.req.offset = p.got.len() as i64;
            if self.driver.is_none() {
                self.say("download: interrompido".to_owned());
                return none();
            }
            assert(p@ =~= (PendingView {
                req: RequestView { offset: got.len() as i64, ..before.pending->0.req },
                got,
                ..before.pending->0
            }));
            return just(Do::Ask(Wanted::Next(p)));
        }
        let chat: usize = p.req.chat;
        let id: i64 = p.req.id;
        match p.kind {
            MediaKind::Photo => self.start_photo_decode(chat, Some(id), p.got),
            MediaKind::File => {
                let words = kilobytes("arquivo: ", p.got.len(), " KB, sem visualizador");
                self.say(words);
                just(Do::Keep { id, data: p.got })
            },
            _ => {
                self.say("audio: sem suporte ainda".to_owned());
                just(Do::Keep { id, data: p.got })
            },
        }
    }

    /// A decode began, or did not. `data` are the bytes it reads.
    pub fn on_decode_begun(&mut self, chat: usize, data: &Vec<u8>, start: DecodeStart) -> (r: Vec<Do>)
        ensures
            (final(self)@, app::do_views(r@)) == app::decode_begun(
                old(self)@,
                chat,
                data@,
                start,
            ),
    {
        match start {
            DecodeStart::NoFile => {
                self.say("decode: sem arquivo para decodificar".to_owned());
                none()
            },
            DecodeStart::Refused(code) => {
                let words = with_code("decode recusou: ", code);
                self.say(words);
                none()
            },
            DecodeStart::Begun => {
                let mut words = "dec ".to_owned();
                let seen = App::describe_bytes(data.as_slice());
                words.append(seen.as_str());
                words.append(" src=cage");
                self.say(words);
                let ghost said = self@;
                self.decode_src = "cage";
                self.decoding = Some(chat);
                assert(self@ =~= (AppView { decoding: Some(chat), decode_src: "cage", ..said }));
                just(Do::DecodeTimer)
            },
        }
    }

    /// The timer of a decode was started, or could not be.
    pub fn on_decode_timer(&mut self, handle: Option<i32>)
        ensures
            final(self)@ == (AppView { decode_watchdog: handle, ..old(self)@ }),
    {
        let ghost before = self@;
        self.decode_watchdog = handle;
        assert(self@ =~= (AppView { decode_watchdog: handle, ..before }));
    }

    /// A decode of this application's ended. With a picture, the viewer takes the screen.
    pub fn on_image_decoded(&mut self, d: Decoded) -> (r: Vec<Do>)
        ensures
            (final(self)@, app::do_views(r@)) == app::decode_ended(old(self)@, d),
    {
        let ghost before = self@;
        let mut fx = none();
        if let Some(h) = self.decode_watchdog {
            also(&mut fx, Do::CancelTimer(h));
        }
        self.decode_watchdog = None;
        let was = self.decoding;
        self.decoding = None;
        assert(self@ =~= (AppView { decode_watchdog: None, decoding: None, ..before }));
        assert(app::do_views(fx@) =~= match before.decode_watchdog {
            Some(h) => seq![DoView::CancelTimer(h)],
            None => seq![],
        });
        let chat: usize = match was {
            Some(i) => i,
            None => {
                return fx;
            },
        };
        match d {
            Decoded::Failed(code) => {
                let words = with_code("decode falhou: ", code);
                self.say(words);
                also(&mut fx, Do::ReleaseDecoder);
            },
            Decoded::NoPicture(code) => {
                let words = with_code("decode sem pixels: ", code);
                self.say(words);
                also(&mut fx, Do::ReleaseDecoder);
            },
            Decoded::Picture => {
                let empty = String::new();
                assert(empty@ =~= seq![]);
                self.set_status(empty);
                self.show(Screen::Viewer(chat));
                also(&mut fx, Do::ReleaseDecoder);
            },
        }
        fx
    }

    /// Whether a timer is the one of the running decode.
    pub fn owns_timer(&self, handle: i32) -> (r: bool)
        ensures
            r == (self@.decode_watchdog == Some(handle)),
    {
        match self.decode_watchdog {
            Some(h) => h == handle,
            None => false,
        }
    }

    /// The timer of a decode fired: the picture is in memory, so it is not slow, it is stuck.
    pub fn on_decode_stuck(&mut self, p: Option<DecodeProgress>) -> (r: Vec<Do>)
        ensures
            (final(self)@, app::do_views(r@)) == app::decode_stuck(old(self)@, p),
    {
        let ghost before = self@;
        self.decode_watchdog = None;
        assert(self@ =~= (AppView { decode_watchdog: None, ..before }));
        let words = stuck_text(self.decode_src, p);
        self.say(words);
        let ghost said = self@;
        let running: bool = self.decoding.is_some();
        self.decoding = None;
        assert(self@ =~= (AppView { decoding: None, ..said }));
        if running {
            just(Do::ReleaseDecoder)
        } else {
            none()
        }
    }
}

// ---- replies --------------------------------------------------------------------------------------

/// What a reply has to be parsed as, by the tag of what was asked.
pub fn parse_for(tag: u32) -> (r: Parse)
    ensures
        r == app::parse_of(tag),
{
    let kind: u32 = tag & TAG_KIND;
    if tag == TAG_DIALOGS {
        Parse::Dialogs
    } else if kind == TAG_HISTORY {
        Parse::History
    } else if kind == TAG_REFRESH {
        Parse::Again
    } else if kind == TAG_SEND {
        Parse::Sent
    } else if kind == TAG_FILE {
        Parse::File
    } else {
        Parse::Nothing
    }
}

fn written(f: Option<FileWrite>) -> (r: Vec<Do>)
    ensures
        app::do_views(r@) == (match f {
            Some(f) => seq![DoView::Write(f.name@, f.bytes@)],
            None => seq![],
        }),
{
    match f {
        Some(f) => just(Do::Write(f)),
        None => none(),
    }
}

proof fn lemma_last_pending(m: Seq<model::MessageView>, n: int)
    requires
        0 <= n <= m.len(),
        forall|k: int| n <= k < m.len() ==> (#[trigger] m[k]).state != Delivery::Pending,
        n > 0 ==> m[n - 1].state == Delivery::Pending,
    ensures
        app::last_pending(m) == (if n == 0 {
            None
        } else {
            Some(n - 1)
        }),
    decreases m.len() - n,
{
    if n < m.len() {
        let s = m.drop_last();
        assert forall|k: int| n <= k < s.len() implies (#[trigger] s[k]).state
            != Delivery::Pending by {
            assert(s[k] == m[k]);
        }
        assert(m.last().state != Delivery::Pending);
        if n > 0 {
            assert(s[n - 1] == m[n - 1]);
        }
        lemma_last_pending(s, n);
    }
}

fn acknowledge(c: &mut Chat)
    ensures
        final(c)@ == app::acknowledged(old(c)@),
{
    let ghost before = c@;
    let mut n: usize = c.messages.len();
    while n > 0
        invariant
            n <= c.messages.len(),
            c@ == before,
            c@ == old(c)@,
            forall|k: int|
                n <= k < before.messages.len() ==> (#[trigger] before.messages[k]).state
                    != Delivery::Pending,
        decreases n,
    {
        assert(c@.messages[n - 1] == c.messages@[n - 1]@);
        if c.messages[n - 1].state == Delivery::Pending {
            proof {
                lemma_last_pending(before.messages, n as int);
            }
            c.messages[n - 1].state = Delivery::Sent;
            assert(c@.messages =~= app::acknowledged(before).messages);
            assert(c@ =~= app::acknowledged(before));
            return;
        }
        n -= 1;
    }
    proof {
        lemma_last_pending(before.messages, 0);
    }
}

impl App {
    fn dialogs_came(&mut self, page: Option<proto::Dialogs>, now: i64, utc_offset: i32) -> (r: Vec<
        Do,
    >)
        ensures
            (final(self)@, app::do_views(r@)) == app::dialogs_came(
                old(self)@,
                page,
                utc_offset as int,
            ),
    {
        let ghost before = self@;
        match page {
            None => {
                self.store.dialogs_loading = false;
                assert(self@.store =~= app::dialogs_came(before, page, utc_offset as int).0.store);
                assert(self@ =~= app::dialogs_came(before, page, utc_offset as int).0);
                none()
            },
            Some(d) => {
                if self.dialogs_from_top {
                    self.dialogs_from_top = false;
                    let mut status = String::new();
                    std::mem::swap(&mut status, &mut self.store.status);
                    self.store = store_from_dialogs(&d, now, utc_offset);
                    self.store.status = status;
                } else {
                    let _added: usize = merge_dialogs(&mut self.store, &d, now, utc_offset);
                }
                assert(self@.store =~= app::dialogs_came(before, page, utc_offset as int).0.store);
                assert(self@ =~= app::dialogs_came(before, page, utc_offset as int).0);
                just(Do::Write(save_list(&self.store)))
            },
        }
    }

    fn history_came(&mut self, i: usize, page: Option<proto::Dialogs>, utc_offset: i32) -> (r: Vec<
        Do,
    >)
        ensures
            (final(self)@, app::do_views(r@)) == app::history_came(
                old(self)@,
                i,
                page,
                utc_offset as int,
            ),
    {
        let ghost before = self@;
        let peer = match self.peer_of(i) {
            Some(p) => p,
            None => {
                return none();
            },
        };
        let ghost was = self.store.chats@;
        let p = match page {
            Some(p) => p,
            None => {
                // Not asked for again: the same bytes would fail the same way.
                self.set_loading(i, false, true);
                return none();
            },
        };
        let shift: usize = merge_history(&mut self.store.chats[i], &p, peer, utc_offset);
        let ghost after = pages::after_history(
            before.store.chats[i as int],
            p@.messages,
            peer.id,
            utc_offset as int,
        );
        proof {
            lemma_one_chat(was, self.store.chats@, i as int);
        }
        assert(self@.store =~= before.with_chat(i, after).store);
        assert(self@ =~= before.with_chat(i, after));
        let fx = written(save_tail(&self.store.chats[i]));
        assert(app::do_views(fx@) =~= app::tail_written(after));
        let waited: bool = match self.opening_chat {
            Some(k) => k == i,
            None => false,
        };
        if waited {
            self.opening_chat = None;
            assert(self@ =~= (AppView { opening_chat: None, ..before.with_chat(i, after) }));
            self.show(Screen::Conversation(Conversation::new(i)));
        }
        let ghost shown = self@;
        match &mut self.screen {
            Screen::Conversation(c) => {
                if c.chat == i {
                    let selected: usize = if shift <= usize::MAX - c.state.selected {
                        c.state.selected + shift
                    } else {
                        usize::MAX
                    };
                    c.state = ListState { selected, scroll: c.state.scroll };
                    let stale: bool = match &c.note {
                        Some(n) => same(n.as_str(), "recarregando..."),
                        None => false,
                    };
                    if stale {
                        c.note = None;
                    }
                }
            },
            _ => {},
        }
        assert(match shown.screen {
            ScreenView::Conversation(v) => if v.chat == i {
                self.screen is Conversation && self.screen->Conversation_0@ =~= app::reread(
                    v,
                    shift as int,
                )
            } else {
                self@.screen == shown.screen
            },
            _ => self@.screen == shown.screen,
        });
        assert(self@ =~= app::history_came(before, i, page, utc_offset as int).0);
        fx
    }

    /// A reply to something that was asked for.
    pub fn on_answer(&mut self, tag: u32, reply: Reply, now: i64, utc_offset: i32) -> (r: Vec<Do>)
        ensures
            (final(self)@, app::do_views(r@)) == app::replied(
                old(self)@,
                tag,
                reply,
                utc_offset as int,
            ),
    {
        let ghost before = self@;
        let ghost was = self.store.chats@;
        let i: usize = (tag & TAG_INDEX) as usize;
        match (parse_for(tag), reply) {
            (Parse::Dialogs, Reply::Dialogs(page)) => self.dialogs_came(page, now, utc_offset),
            (Parse::History, Reply::History(page)) => self.history_came(i, page, utc_offset),
            (Parse::Again, Reply::Again(m)) => {
                if let Some(m) = m {
                    if i < self.store.chats.len() {
                        assert(before.store.chats[i as int] == was[i as int]@);
                        let _held: bool = refresh_media(&mut self.store.chats[i], m.id, &m);
                        proof {
                            lemma_one_chat(was, self.store.chats@, i as int);
                        }
                        let ghost c = pages::refreshed(before.store.chats[i as int], m@.id, m@);
                        assert(self@.store =~= before.with_chat(i, c).store);
                        assert(self@ =~= before.with_chat(i, c));
                    }
                }
                none()
            },
            (Parse::Sent, Reply::Sent) => {
                if i < self.store.chats.len() {
                    assert(before.store.chats[i as int] == was[i as int]@);
                    acknowledge(&mut self.store.chats[i]);
                    proof {
                        lemma_one_chat(was, self.store.chats@, i as int);
                    }
                    let ghost c = app::acknowledged(before.store.chats[i as int]);
                    assert(self@.store =~= before.with_chat(i, c).store);
                    assert(self@ =~= before.with_chat(i, c));
                }
                none()
            },
            (Parse::File, Reply::File(b)) => self.show_downloaded_file(b),
            _ => none(),
        }
    }
}

// ---- the connection -------------------------------------------------------------------------------

/// What a wish comes to at the driver.
#[derive(Debug)]
pub enum Asked {
    /// There is nothing to carry it.
    Refused,
    /// A request to be sent.
    Call(Call),
    /// A chunk: whether an answer is to be expected, and what is to be done.
    Chunk(Expected, Vec<Effect>),
}

/// Whether a request was made of a driver: one to be sent, or none without a session.
pub open spec fn requested(
    d: driver::DriverView,
    request: driver::Request,
    tag: u32,
    after: driver::DriverView,
    r: Asked,
) -> bool {
    after == d && r == (if d.home is Some {
        Asked::Call(Call { on: driver::On::Home, request, tag })
    } else {
        Asked::Refused
    })
}

/// The request for a page of dialogs.
pub open spec fn dialogs_from(date: i32, id: i32, peer: Option<PeerRef>) -> driver::Request {
    driver::Request::Dialogs {
        limit: driver::DIALOG_PAGE,
        offset_date: date,
        offset_id: id,
        offset_peer: peer,
    }
}

/// Whether a wish came to what it should at a driver, and left the driver as it should. `busy` says
/// whether the worker has a job.
pub open spec fn asked(
    d: driver::DriverView,
    w: WantedView,
    busy: bool,
    after: driver::DriverView,
    r: Asked,
) -> bool {
    match w {
        WantedView::MoreDialogs { date, id, after: peer } => requested(
            d,
            dialogs_from(date, id, peer),
            TAG_DIALOGS,
            after,
            r,
        ),
        WantedView::TopDialogs => requested(d, dialogs_from(0, 0, None), TAG_DIALOGS, after, r),
        WantedView::FirstDialogs => requested(d, dialogs_from(0, 0, None), TAG_DIALOGS, after, r),
        WantedView::Newest { chat, peer, .. } => requested(
            d,
            driver::Request::History { peer, offset_id: 0, limit: driver::HISTORY_PAGE },
            driver::tagged(TAG_HISTORY, driver::chat_bits(chat)),
            after,
            r,
        ),
        WantedView::Older { chat, peer, offset } => requested(
            d,
            driver::Request::History { peer, offset_id: offset, limit: driver::HISTORY_PAGE },
            driver::tagged(TAG_HISTORY, driver::chat_bits(chat)),
            after,
            r,
        ),
        WantedView::Message { chat, peer, text } => exists|words: String|
            #[trigger] words@ == text && requested(
                d,
                driver::Request::Send { peer, text: words },
                driver::tagged(TAG_SEND, driver::chat_bits(chat)),
                after,
                r,
            ),
        WantedView::Again { chat, peer, message } => requested(
            d,
            driver::Request::Refresh { peer, message },
            driver::tagged(TAG_REFRESH, driver::chat_bits(chat)),
            after,
            r,
        ),
        WantedView::First(p) => chunk_asked(d, p.req, p.dc, busy, after, r),
        WantedView::Next(p) => chunk_asked(d, p.req, p.dc, busy, after, r),
        WantedView::Elsewhere { req, dc } => chunk_asked(d, req, dc, busy, after, r),
    }
}

/// Whether a wish for a chunk came to what it should at a driver.
pub open spec fn chunk_asked(
    d: driver::DriverView,
    req: RequestView,
    dc: u8,
    busy: bool,
    after: driver::DriverView,
    r: Asked,
) -> bool {
    exists|q: FileRequest| #[trigger]
        app::request_view(q) == req && after == driver::chunk(d, q, dc, busy).0 && (
        r matches Asked::Chunk(e, fx) && e == driver::chunk(d, q, dc, busy).1 && driver::fx_views(
            fx@,
        ) == driver::chunk(d, q, dc, busy).2)
}

fn sent_as(call: Option<Call>) -> (r: Asked)
    ensures
        r == (match call {
            Some(c) => Asked::Call(c),
            None => Asked::Refused,
        }),
{
    match call {
        Some(c) => Asked::Call(c),
        None => Asked::Refused,
    }
}

fn ask_chunk(d: &mut Driver, req: &FileRequest, dc: u8, busy: bool) -> (r: Asked)
    ensures
        chunk_asked(old(d)@, app::request_view(*req), dc, busy, final(d)@, r),
{
    let q = copy_request(req);
    let ghost copy = q;
    let (expected, fx) = d.request_file_chunk(q, dc, busy);
    assert(app::request_view(copy) == app::request_view(*req));
    Asked::Chunk(expected, fx)
}

/// The application as it is launched, with what this build has for credentials and what the list's
/// file held, and what that takes.
pub open spec fn launched(api_id: i32, api_hash: Seq<char>, list: Option<Seq<u8>>) -> (
    AppView,
    Seq<driver::FxView>,
) {
    (
        app::started(
            Some(driver::new_driver()),
            match cache_files::loaded_list(list) {
                Some(chats) => StoreView { chats, ..model::empty_store() },
                None => model::empty_store(),
            },
            login::new_login(login::at_phone(), api_id, api_hash.len() == 0),
            ScreenView::Login,
        ),
        seq![Effect::SetTimer(Purpose::Connect, driver::CONNECT_DELAY_MS)@],
    )
}

impl App {
    /// Put a wish to the driver. Nothing comes of it without one.
    pub fn perform(&mut self, w: &Wanted, busy: bool) -> (r: Asked)
        ensures
            (match old(self)@.driver {
                Some(d) => final(self)@.driver is Some && final(self)@ == (AppView {
                    driver: final(self)@.driver,
                    ..old(self)@
                }) && asked(d, w@, busy, final(self)@.driver->0, r),
                None => final(self)@ == old(self)@ && r == Asked::Refused,
            }),
    {
        let ghost before = self@;
        let mut was = self.driver.take();
        let r = match &mut was {
            Some(d) => {
                let ghost was_d = d@;
                let r = match w {
                    Wanted::MoreDialogs { date, id, after } => sent_as(
                        d.request_dialogs(*date, *id, *after),
                    ),
                    Wanted::TopDialogs => sent_as(d.request_dialogs(0, 0, None)),
                    Wanted::FirstDialogs => sent_as(d.request_dialogs(0, 0, None)),
                    Wanted::Newest { chat, peer, .. } => sent_as(
                        d.request_history(*chat, *peer, 0),
                    ),
                    Wanted::Older { chat, peer, offset } => sent_as(
                        d.request_history(*chat, *peer, *offset),
                    ),
                    Wanted::Message { chat, peer, text } => {
                        let words = text.clone();
                        let ghost copy = words;
                        let r = sent_as(d.send_message(*chat, *peer, words));
                        assert(copy@ == text@);
                        assert(requested(
                            was_d,
                            driver::Request::Send { peer: *peer, text: copy },
                            driver::tagged(TAG_SEND, driver::chat_bits(*chat)),
                            was_d,
                            r,
                        ));
                        assert(asked(was_d, w@, busy, was_d, r));
                        r
                    },
                    Wanted::Again { chat, peer, message } => sent_as(
                        d.request_refresh(*chat, *peer, *message),
                    ),
                    Wanted::First(p) => ask_chunk(d, &p.req, p.dc, busy),
                    Wanted::Next(p) => ask_chunk(d, &p.req, p.dc, busy),
                    Wanted::Elsewhere { req, dc } => ask_chunk(d, req, *dc, busy),
                };
                assert(asked(was_d, w@, busy, d@, r));
                r
            },
            None => Asked::Refused,
        };
        self.driver = was;
        assert(self@ =~= (AppView { driver: self@.driver, ..before }));
        r
    }

    fn top_asked(&mut self, sent: bool)
        ensures
            final(self)@ == app::top_asked(old(self)@, sent),
    {
        let ghost before = self@;
        self.store.dialogs_loading = true;
        self.store.dialogs_complete = false;
        self.dialogs_from_top = true;
        self.store.status = told(sent);
        assert(self@.store =~= app::top_asked(before, sent).store);
        assert(self@ =~= app::top_asked(before, sent));
    }

    fn newest_asked(&mut self, chat: usize, noted: bool, sent: bool)
        ensures
            final(self)@ == app::newest_asked(old(self)@, chat, noted, sent),
    {
        if chat < self.store.chats.len() {
            assert(self@.store.chats[chat as int] == self.store.chats@[chat as int]@);
            let complete: bool = self.store.chats[chat].complete;
            self.set_loading(chat, true, complete);
        }
        self.set_status(told(sent));
        if noted {
            self.set_note(told(sent));
        }
    }

    fn first_asked(&mut self, p: PendingFile, sent: bool, home: u8)
        ensures
            final(self)@ == app::first_asked(old(self)@, p@, sent, home),
    {
        let ghost before = self@;
        if sent {
            let far: bool = p.dc != 0 && p.dc != home;
            let ghost pending = p@;
            self.pending = Some(p);
            assert(self@ =~= (AppView { pending: Some(pending), ..before }));
            if far {
                self.set_status("conectando ao servidor da midia...".to_owned());
            } else {
                self.set_status("baixando...".to_owned());
            }
        } else {
            self.say("download: fila (link ocupado)".to_owned());
        }
    }

    fn next_asked(&mut self, p: PendingFile, sent: bool)
        ensures
            final(self)@ == app::next_asked(old(self)@, p@, sent),
    {
        if sent {
            let words = kilobytes("baixando ", p.got.len(), " KB...");
            self.say(words);
            let ghost said = self@;
            let ghost pending = p@;
            self.pending = Some(p);
            assert(self@ =~= (AppView { pending: Some(pending), ..said }));
        } else {
            self.say("download: interrompido".to_owned());
        }
    }

    fn elsewhere_asked(&mut self, dc: u8, sent: bool)
        ensures
            final(self)@ == app::elsewhere_asked(old(self)@, dc, sent),
    {
        let ghost before = self@;
        if sent {
            let mut words = "buscando no servidor ".to_owned();
            push_u64(&mut words, dc as u64);
            words.append("...");
            self.say(words);
        } else {
            self.pending = None;
            assert(self@ =~= (AppView { pending: None, ..before }));
            self.set_status("download: outro servidor, sem rota".to_owned());
        }
    }

    /// What was asked for went out, or did not.
    pub fn on_sent(&mut self, w: Wanted, sent: bool, now: i64, utc_offset: i32)
        requires
            now + utc_offset <= i64::MAX,
        ensures
            final(self)@ == app::sent_on(old(self)@, w@, sent, now as int, utc_offset as int),
    {
        match w {
            Wanted::TopDialogs => self.top_asked(sent),
            Wanted::Newest { chat, noted, .. } => self.newest_asked(chat, noted, sent),
            Wanted::Message { chat, text, .. } => {
                if chat < self.store.chats.len() {
                    self.post(chat, text, sent, hhmm(now, utc_offset));
                }
            },
            Wanted::First(p) => {
                let home: u8 = match &self.driver {
                    Some(d) => d.home_dc(),
                    None => 0,
                };
                self.first_asked(p, sent, home);
            },
            Wanted::Next(p) => self.next_asked(p, sent),
            Wanted::Elsewhere { dc, .. } => self.elsewhere_asked(dc, sent),
            _ => {},
        }
    }

    /// The login machine answered an action, and the driver carries out what it asks for.
    pub fn on_machine(&mut self, a: LoginAction, act: Action) -> (r: Vec<Effect>)
        ensures
            (final(self)@, driver::fx_views(r@)) == app::machine_answered(
                old(self)@,
                a@,
                act,
            ),
    {
        let ghost before = self@;
        let p = match &a {
            LoginAction::SendCode(number) => self.login.ask_send_code(number.as_str(), act),
            LoginAction::SubmitCode(_) => self.login.submit_code(act),
            LoginAction::SubmitPassword(_) => self.login.submit_password(act),
            LoginAction::Resend => self.login.ask_resend(act),
            _ => {
                let fx: Vec<Effect> = Vec::new();
                assert(driver::fx_views(fx@) =~= seq![]);
                return fx;
            },
        };
        assert(self@ =~= (AppView { login: app::handed(before.login, a@, act), ..before }));
        let mut was = self.driver.take();
        let (out, fx): (Outcome, Vec<Effect>) = match &mut was {
            Some(d) => d.apply(p),
            None => {
                let fx: Vec<Effect> = Vec::new();
                assert(driver::fx_views(fx@) =~= seq![]);
                (Outcome::Nothing, fx)
            },
        };
        self.driver = was;
        if let Outcome::Disconnected(why) = out {
            self.login.set_error(why);
        }
        assert(self@ =~= app::machine_answered(before, a@, act).0);
        fx
    }

    /// Something happened on the connection. Nothing comes of it in a build that drives none; with
    /// one, what the driver reports goes to [`App::on_answer`] or to [`App::on_outcome`].
    pub fn on_driver(&mut self, ev: Event, ready: bool) -> (r: Option<(Outcome, Vec<Effect>)>)
        ensures
            (match old(self)@.driver {
                None => r is None && final(self)@ == old(self)@,
                Some(d) => r matches Some(turn) && driver::went(
                    driver::turn(d, ev, old(self)@.login.authorized),
                    final(self)@.driver->0,
                    turn,
                ) && final(self)@ == app::driven(
                    old(self)@,
                    driver::turn(d, ev, old(self)@.login.authorized).s,
                    ready,
                ),
            }),
    {
        let ghost before = self@;
        let mut was = self.driver.take();
        let authorized: bool = self.login.is_authorized();
        let r = match &mut was {
            Some(d) => {
                let turn = d.on_event(ev, authorized);
                self.login.set_status(d.status);
                self.login.connected = d.is_connected(ready);
                Some(turn)
            },
            None => None,
        };
        self.driver = was;
        assert(before.driver is Some ==> self@.login =~= app::driven(
            before,
            driver::turn(before.driver->0, ev, before.login.authorized).s,
            ready,
        ).login);
        assert(before.driver is Some ==> self@ =~= app::driven(
            before,
            driver::turn(before.driver->0, ev, before.login.authorized).s,
            ready,
        ));
        assert(before.driver is None ==> self@ =~= before);
        r
    }

    /// What the platform reports, other than keys. The driver hears it for the whole session,
    /// whatever is on screen.
    pub fn handle_raw(&mut self, raw: Raw, ready: bool) -> (r: RawNext)
        ensures
            (match app::driver_event(old(self)@, raw) {
                None => r matches RawNext::Done(h, fx) && (final(self)@, h, app::do_views(fx@))
                    == app::undriven(old(self)@, raw),
                Some(ev) => match old(self)@.driver {
                    None => r matches RawNext::Done(h, fx) && h == Handled::Ignored
                        && app::do_views(fx@) == Seq::<DoView>::empty() && final(self)@
                        == old(self)@,
                    Some(d) => r matches RawNext::Driven(out, fx) && driver::went(
                        driver::turn(d, ev, old(self)@.login.authorized),
                        final(self)@.driver->0,
                        (out, fx),
                    ) && final(self)@ == app::driven(
                        old(self)@,
                        driver::turn(d, ev, old(self)@.login.authorized).s,
                        ready,
                    ),
                },
            }),
    {
        let ghost before = self@;
        let ev = match raw {
            Raw::Bridged => {
                self.should_exit = true;
                assert(self@ =~= (AppView { should_exit: true, ..before }));
                return RawNext::Done(Handled::Consumed, none());
            },
            Raw::Timer { handle, progress } => {
                if self.owns_timer(handle) {
                    let fx = self.on_decode_stuck(progress);
                    return RawNext::Done(Handled::Consumed, fx);
                }
                Event::Timer(handle)
            },
            Raw::ImageDone { mine, decoded } => {
                if mine {
                    let fx = self.on_image_decoded(decoded);
                    return RawNext::Done(Handled::Consumed, fx);
                }
                return RawNext::Done(Handled::Ignored, none());
            },
            Raw::Other(ev) => ev,
        };
        match self.on_driver(ev, ready) {
            Some((out, fx)) => RawNext::Driven(out, fx),
            None => RawNext::Done(Handled::Ignored, none()),
        }
    }

    fn on_file_refused(&mut self, tag: u32, words: &String, elsewhere: Option<u8>) -> (r: Vec<Do>)
        ensures
            (final(self)@, app::do_views(r@)) == app::file_refused(
                old(self)@,
                tag,
                words@,
                elsewhere,
            ),
    {
        let ghost before = self@;
        let pending = self.pending.take();
        assert(self@ =~= (AppView { pending: None, ..before }));
        if starts_with(words.as_str(), "FILE_REFERENCE_EXPIRED") {
            // A reference is per message and expires: the message is read again for a fresh one.
            let (i, message): (usize, i32) = match &pending {
                Some(p) => (p.req.chat, p.msg_id),
                None => ((tag & TAG_INDEX) as usize, 0),
            };
            return ask(self.refresh_message(i, message));
        }
        match elsewhere {
            Some(dc) => {
                // Retried where the server says it is, from the same offset, and without moving the
                // session.
                match pending {
                    Some(mut p) => {
                        if self.driver.is_some() {
                            p.dc = dc;
                            p.req.offset = p.got.len() as i64;
                            let req = copy_request(&p.req);
                            let ghost moved = PendingView {
                                dc,
                                req: RequestView {
                                    offset: before.pending->0.got.len() as i64,
                                    ..before.pending->0.req
                                },
                                ..before.pending->0
                            };
                            assert(p@ =~= moved);
                            self.pending = Some(p);
                            assert(self@ =~= (AppView { pending: Some(moved), ..before }));
                            return just(Do::Ask(Wanted::Elsewhere { req, dc }));
                        }
                        self.set_status("download: outro servidor, sem rota".to_owned());
                        none()
                    },
                    None => {
                        self.set_status("download: outro servidor, sem rota".to_owned());
                        none()
                    },
                }
            },
            None => {
                let mut text = "download: ".to_owned();
                text.append(words.as_str());
                self.say(text);
                none()
            },
        }
    }

    /// What the driver reports, other than a reply. `elsewhere` is the data centre a refused download
    /// names, where it names one.
    pub fn on_outcome(&mut self, out: &Outcome, elsewhere: Option<u8>) -> (r: (Handled, Vec<Do>))
        ensures
            (final(self)@, r.0, app::do_views(r.1@)) == app::reported(
                old(self)@,
                *out,
                elsewhere,
            ),
    {
        let ghost before = self@;
        match out {
            Outcome::Redraw => (Handled::Consumed, none()),
            Outcome::Authorized => {
                self.show(Screen::Chats(ChatList::new()));
                let ghost shown = self@;
                self.dialogs_from_top = true;
                assert(self@ =~= (AppView { dialogs_from_top: true, ..shown }));
                let mut fx = just(Do::Ask(Wanted::FirstDialogs));
                also(&mut fx, Do::Bridge);
                assert(app::do_views(fx@) =~= seq![
                    DoView::Ask(WantedView::FirstDialogs),
                    DoView::Bridge,
                ]);
                (Handled::Consumed, fx)
            },
            Outcome::RequestFailed(tag, words) => {
                if *tag & TAG_KIND == TAG_FILE {
                    let fx = self.on_file_refused(*tag, words, elsewhere);
                    return (Handled::Consumed, fx);
                }
                (Handled::Consumed, none())
            },
            Outcome::Disconnected(why) => {
                self.login.set_error(why);
                assert(self@ =~= app::reported(before, *out, elsewhere).0);
                (Handled::Consumed, none())
            },
            Outcome::Answered(_, _) => (Handled::Consumed, none()),
            Outcome::Nothing => (Handled::Ignored, none()),
        }
    }
}

fn told(sent: bool) -> (r: String)
    ensures
        r@ == app::told(sent),
{
    if sent {
        "atualizando...".to_owned()
    } else {
        "atualizacao na fila".to_owned()
    }
}

// ---- keys -----------------------------------------------------------------------------------------

impl App {
    /// Whether the conversation in front is one of the list, as every key on it takes for granted.
    pub fn is_sound(&self) -> (r: bool)
        ensures
            r == self@.sound(),
    {
        match &self.screen {
            Screen::Conversation(c) => c.chat < self.store.chats.len(),
            _ => true,
        }
    }

    /// What has to be asked of the toolkit before [`App::on_key`] can say what a key comes to.
    pub fn asks(&self, key: Key, row_h: i32, viewport_h: i32) -> (r: Ask)
        ensures
            r == app::key_ask(self@, key, row_h as int, viewport_h as int),
    {
        match &self.screen {
            Screen::Login => if self.login.asks_field(key) {
                Ask::Field
            } else {
                Ask::Nothing
            },
            Screen::Chats(list) => list.asks(key, &self.store, row_h, viewport_h),
            Screen::Conversation(c) => c.asks(key),
            Screen::Viewer(_) => Ask::Nothing,
        }
    }

    fn on_login_key(&mut self, key: Key, edit: Option<Edit>) -> (r: (Handled, Vec<Do>))
        ensures
            (final(self)@, r.0, app::do_views(r.1@)) == app::login_keyed(old(self)@, key, edit),
    {
        let ghost before = self@;
        let (handled, action) = self.login.handle_key(key, edit);
        let ghost n = AppView {
            login: LoginView {
                screen: login::pressed(before.login.screen, key, edit).0,
                ..before.login
            },
            ..before
        };
        assert(self@ =~= n);
        match action {
            LoginAction::Nothing => (handled, none()),
            LoginAction::Back => {
                self.should_exit = true;
                assert(self@ =~= (AppView { should_exit: true, ..n }));
                (Handled::Consumed, none())
            },
            other => (Handled::Consumed, just(Do::Machine(other))),
        }
    }

    fn act_on_list(&mut self, a: ChatListAction) -> (r: (Handled, Vec<Do>))
        ensures
            (final(self)@, r.0, app::do_views(r.1@)) == app::list_acted(old(self)@, a),
    {
        let ghost before = self@;
        match a {
            ChatListAction::Open(i) => (Handled::Consumed, just(Do::ReadTail(i))),
            ChatListAction::Exit => {
                self.should_exit = true;
                assert(self@ =~= (AppView { should_exit: true, ..before }));
                (Handled::Consumed, none())
            },
            ChatListAction::LoadMore => {
                let w = self.load_more_dialogs();
                (Handled::Consumed, ask(w))
            },
            ChatListAction::Refresh => {
                let w = self.refresh_dialogs();
                (Handled::Consumed, ask(w))
            },
            ChatListAction::Nothing => (Handled::Ignored, none()),
        }
    }

    pub(crate) fn act_on_conv(&mut self, i: usize, handled: Handled, a: ConvAction, time: String) -> (r: (
        Handled,
        Vec<Do>,
    ))
        requires
            i < old(self)@.store.chats.len(),
        ensures
            (final(self)@, r.0, app::do_views(r.1@)) == app::conv_acted(
                old(self)@,
                i,
                handled,
                a@,
                time@,
            ),
    {
        let ghost before = self@;
        match a {
            ConvAction::Back => {
                // Written as it is closed, which also catches what was sent while it was open.
                assert(self@.store.chats[i as int] == self.store.chats@[i as int]@);
                let fx = written(save_tail(&self.store.chats[i]));
                assert(app::do_views(fx@) =~= app::tail_written(before.store.chats[i as int]));
                let mut list = ChatList::new();
                list.state = ListState { selected: i, scroll: 0 };
                self.show(Screen::Chats(list));
                (Handled::Consumed, fx)
            },
            ConvAction::Send(words) => {
                let w = self.send(i, words, time);
                (Handled::Consumed, ask(w))
            },
            ConvAction::LoadMore => {
                let w = self.load_older(i);
                (Handled::Consumed, ask(w))
            },
            ConvAction::Refresh => {
                let w = self.refresh_conversation(i, true);
                if w.is_none() {
                    let words = self.store.status.clone();
                    self.set_note(words);
                }
                (Handled::Consumed, ask(w))
            },
            ConvAction::OpenMedia(message) => {
                let fx = self.download_media(i, message);
                (Handled::Consumed, fx)
            },
            ConvAction::OpenLink(url) => (Handled::Consumed, just(Do::OpenLink(url))),
            ConvAction::Copy(words) => (Handled::Consumed, just(Do::Copy(words))),
            ConvAction::Nothing => (handled, none()),
        }
    }

    pub(crate) fn window_previews(&self, i: usize) -> (r: Vec<Do>)
        ensures
            app::do_views(r@) == app::window(self@, i),
    {
        match &self.screen {
            Screen::Conversation(c) => if c.chat == i && i < self.store.chats.len() {
                just(Do::Previews { chat: i, selected: c.state.selected })
            } else {
                none()
            },
            _ => none(),
        }
    }

    /// What a key comes to, given what the toolkit made of it where it was asked.
    pub fn on_key(&mut self, p: Press, font: &Atlas) -> (r: (Handled, Vec<Do>))
        requires
            old(self)@.sound(),
            p.now + p.utc_offset <= i64::MAX,
        ensures
            (final(self)@, r.0, app::do_views(r.1@)) == app::keyed(old(self)@, p, font.glyphs@),
    {
        let ghost before = self@;
        let Press { key, answer, viewer, row_h, viewport_h, now, utc_offset } = p;
        let front: u8 = match &self.screen {
            Screen::Login => 0,
            Screen::Chats(_) => 1,
            Screen::Conversation(_) => 2,
            Screen::Viewer(_) => 3,
        };
        if front == 0 {
            let edit = match answer {
                Answer::Edited(e) => Some(e),
                _ => None,
            };
            return self.on_login_key(key, edit);
        }
        match &mut self.screen {
            Screen::Chats(list) => {
                let (handled, action) = list.handle_key(
                    key,
                    &self.store,
                    row_h,
                    viewport_h,
                    answer,
                );
                let then = list.activate(key, &self.store);
                assert(self@ =~= before.showing(self@.screen));
                if action != ChatListAction::Nothing {
                    return self.act_on_list(action);
                }
                if handled == Handled::Consumed {
                    return (handled, none());
                }
                self.act_on_list(then)
            },
            Screen::Conversation(c) => {
                let i: usize = c.chat;
                assert(before.store.chats[i as int] == self.store.chats@[i as int]@);
                let (handled, action) = c.handle_key(key, &self.store.chats[i], font, self.lang, answer);
                assert(self@ =~= before.showing(self@.screen));
                let mut fx = self.window_previews(i);
                let ghost first = app::do_views(fx@);
                let (h, mut more) = self.act_on_conv(
                    i,
                    handled,
                    action,
                    hhmm(now, utc_offset),
                );
                let ghost second = app::do_views(more@);
                let ghost (a, b) = (fx@, more@);
                fx.append(&mut more);
                assert(app::do_views(fx@) =~= first + second);
                (h, fx)
            },
            Screen::Viewer(i) => {
                let i: usize = *i;
                if viewer.1 {
                    self.viewer_back();
                    return (Handled::Consumed, none());
                }
                (viewer.0, none())
            },
            Screen::Login => (Handled::Ignored, none()),
        }
    }

    /// Leave the picture in front.
    pub fn viewer_back(&mut self)
        ensures
            final(self)@ == (match old(self)@.screen {
                ScreenView::Viewer(i) => app::viewer_keyed(
                    old(self)@,
                    i,
                    Handled::Consumed,
                    true,
                ).0,
                _ => old(self)@,
            }),
    {
        if let Screen::Viewer(i) = &self.screen {
            let i: usize = *i;
            if i < self.store.chats.len() {
                self.show(Screen::Conversation(Conversation::new(i)));
            } else {
                self.show(Screen::Chats(ChatList::new()));
            }
        }
    }

    /// Which conversation is in front.
    pub fn in_conversation(&self) -> (r: Option<usize>)
        ensures
            r == (match self@.screen {
                ScreenView::Conversation(c) => Some(c.chat),
                _ => None,
            }),
    {
        match &self.screen {
            Screen::Conversation(c) => Some(c.chat),
            _ => None,
        }
    }

    /// Whether the login is in front, and over.
    pub fn login_authorized(&self) -> (r: bool)
        ensures
            r == (self@.screen is Login && self@.login.authorized),
    {
        match &self.screen {
            Screen::Login => self.login.is_authorized(),
            _ => false,
        }
    }

    /// What the application is called.
    pub fn title(&self) -> (r: &'static str)
        ensures
            r == "Telegram",
    {
        "Telegram"
    }

    /// An application with some chats and no connection.
    pub fn new(store: Store) -> (r: App)
        ensures
            r@ == app::started(
                None,
                store@,
                login::new_login(login::at_phone(), 0, true),
                ScreenView::Chats(ListState { selected: 0, scroll: 0 }),
            ),
    {
        proof {
            reveal_strlit("");
        }
        App::begin(None, store, Login::new(0, ""), Screen::Chats(ChatList::new()))
    }

    /// The samples, with no connection.
    pub fn mock() -> (r: App)
        ensures
            r@ == app::started(
                None,
                samples::sample_store(),
                login::new_login(login::at_phone(), 0, true),
                ScreenView::Chats(ListState { selected: 0, scroll: 0 }),
            ),
    {
        App::new(Store::mock())
    }

    /// The login over the samples, with no credentials and no connection.
    pub fn mock_login() -> (r: App)
        ensures
            r@ == app::started(
                None,
                samples::sample_store(),
                login::new_login(login::at_phone(), 0, true),
                ScreenView::Login,
            ),
    {
        proof {
            reveal_strlit("");
        }
        App::begin(None, Store::mock(), Login::new(0, ""), Screen::Login)
    }

    fn begin(driver: Option<Driver>, store: Store, login: Login, screen: Screen) -> (r: App)
        ensures
            r@ == app::started(app::driver_opt(driver), store@, login@, screen@),
    {
        let r = App {
            driver,
            store,
            login,
            screen,
            should_exit: false,
            opening_chat: None,
            dialogs_from_top: true,
            pending: None,
            decoding: None,
            decode_src: "",
            decode_watchdog: None,
            lang: Lang::En,
        };
        assert(r@ =~= app::started(app::driver_opt(driver), store@, login@, screen@));
        r
    }

    /// The login, with what this build has for credentials and what the list's file held. The network
    /// is not touched: a window comes first, and with it a place for what goes wrong.
    pub fn login(api_id: i32, api_hash: &str, list: Option<&[u8]>) -> (r: (App, Vec<Effect>))
        ensures
            (r.0@, driver::fx_views(r.1@)) == launched(
                api_id,
                api_hash@,
                cache_files::file_opt(list),
            ),
    {
        let driver = Driver::new();
        let fx = driver.arm_connect();
        let mut store = Store::default();
        if let Some(chats) = cache_files::load_list(list) {
            store.chats = chats;
        }
        let login = Login::new(api_id, api_hash);
        (App::begin(Some(driver), store, login, Screen::Login), fx)
    }
}

} // verus!
