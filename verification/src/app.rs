//! The application: which screen is in front, what is being fetched, and what comes next.
//!
//! Every method takes what happened and returns what is to be done about it. Whoever owns the
//! sockets, the disk and the codec does that, and reports back through the method each [`Do`] names.

use crate::cache_files;
use crate::cache_files::FileWrite;
use crate::chats;
use crate::chats::{ChatList, ChatListAction};
use crate::conv;
use crate::conv::{ConvActionView, ConvView, Conversation};
use crate::driver;
use crate::driver::{
    Driver, DriverView, Effect, Event, FileRequest, FxView, Outcome, OutcomeView, TAG_DIALOGS, TAG_FILE,
    TAG_HISTORY, TAG_INDEX, TAG_REFRESH, TAG_SEND,
};
use crate::login;
use crate::login::{Action, Login, LoginAction, LoginActionView, LoginView};
use crate::model::{
    ChatView, Delivery, MediaKind, MediaView, Message, MessageView, PeerRef, Store, StoreView,
};
use crate::pages;
use crate::proto;
use crate::store_cache;
use crate::strings;
use crate::strings::Lang;
use crate::text;
use crate::ui::{Answer, Ask, Edit, Handled, Key, ListState};
use vstd::prelude::*;
use vstd::string::*;

verus! {

/// The most a single download may gather. It is held beside the chunk that just came and the
/// decoder's own copy, on a heap of four megabytes.
pub const MAX_FILE_BYTES: usize = 1_048_576;

/// How long a decode may take before it is stuck rather than slow.
pub const DECODE_TIMEOUT_MS: i32 = 8_000;

/// How many bytes one chunk of a file has, unless it is the last.
pub const CHUNK: usize = 131_072;

/// Which screen is in front. The login itself lives on [`App`]: the connection must be heard
/// whatever is on screen.
#[derive(Debug)]
pub enum Screen {
    Chats(ChatList),
    Conversation(Conversation),
    Login,
    /// A picture, and the conversation it was opened from.
    Viewer(usize),
}

/// The values of a [`Screen`].
pub enum ScreenView {
    Chats(ListState),
    Conversation(ConvView),
    Login,
    Viewer(usize),
}

impl View for Screen {
    type V = ScreenView;

    open spec fn view(&self) -> ScreenView {
        match *self {
            Screen::Chats(list) => ScreenView::Chats(list.state),
            Screen::Conversation(c) => ScreenView::Conversation(c@),
            Screen::Login => ScreenView::Login,
            Screen::Viewer(chat) => ScreenView::Viewer(chat),
        }
    }
}

/// A download in progress, chunk by chunk.
#[derive(Debug, PartialEq, Eq)]
pub struct PendingFile {
    /// Which message, so that an expired reference refreshes the right one.
    pub msg_id: i32,
    /// What the bytes will be, since a reply does not say.
    pub kind: MediaKind,
    /// Which data centre holds it.
    pub dc: u8,
    /// What asks for the next chunk.
    pub req: FileRequest,
    /// What has arrived.
    pub got: Vec<u8>,
}

/// The values of a [`FileRequest`].
#[verifier::ext_equal]
pub struct RequestView {
    pub chat: usize,
    pub is_photo: bool,
    pub id: i64,
    pub access_hash: i64,
    pub file_reference: Seq<u8>,
    pub thumb_size: Seq<char>,
    pub offset: i64,
}

/// The values of a [`FileRequest`].
pub open spec fn request_view(r: FileRequest) -> RequestView {
    RequestView {
        chat: r.chat,
        is_photo: r.is_photo,
        id: r.id,
        access_hash: r.access_hash,
        file_reference: r.file_reference@,
        thumb_size: r.thumb_size@,
        offset: r.offset,
    }
}

/// The values of a [`PendingFile`].
#[verifier::ext_equal]
pub struct PendingView {
    pub msg_id: i32,
    pub kind: MediaKind,
    pub dc: u8,
    pub req: RequestView,
    pub got: Seq<u8>,
}

impl View for PendingFile {
    type V = PendingView;

    open spec fn view(&self) -> PendingView {
        PendingView {
            msg_id: self.msg_id,
            kind: self.kind,
            dc: self.dc,
            req: request_view(self.req),
            got: self.got@,
        }
    }
}

/// The values of a download that may not be there.
pub open spec fn pending_opt(p: Option<PendingFile>) -> Option<PendingView> {
    match p {
        Some(p) => Some(p@),
        None => None,
    }
}

/// What the server is asked for. Performed by [`App::perform`], then answered by [`App::on_sent`].
#[derive(Debug, PartialEq, Eq)]
pub enum Wanted {
    /// The page of dialogs below those that are held.
    MoreDialogs { date: i32, id: i32, after: Option<PeerRef> },
    /// The list from the top, because someone pressed for it.
    TopDialogs,
    /// The list from the top, because the session has just begun.
    FirstDialogs,
    /// The newest page of a conversation. `noted` when its screen shows what became of it.
    Newest { chat: usize, peer: PeerRef, noted: bool },
    /// The page of a conversation above what is held.
    Older { chat: usize, peer: PeerRef, offset: i32 },
    /// A message going out.
    Message { chat: usize, peer: PeerRef, text: String },
    /// One message again, for a fresh file reference.
    Again { chat: usize, peer: PeerRef, message: i32 },
    /// The first chunk of a file.
    First(PendingFile),
    /// A further chunk of a file.
    Next(PendingFile),
    /// The chunk that was refused, from the data centre that has it.
    Elsewhere { req: FileRequest, dc: u8 },
}

/// The values of a [`Wanted`].
pub enum WantedView {
    MoreDialogs { date: i32, id: i32, after: Option<PeerRef> },
    TopDialogs,
    FirstDialogs,
    Newest { chat: usize, peer: PeerRef, noted: bool },
    Older { chat: usize, peer: PeerRef, offset: i32 },
    Message { chat: usize, peer: PeerRef, text: Seq<char> },
    Again { chat: usize, peer: PeerRef, message: i32 },
    First(PendingView),
    Next(PendingView),
    Elsewhere { req: RequestView, dc: u8 },
}

impl View for Wanted {
    type V = WantedView;

    open spec fn view(&self) -> WantedView {
        match *self {
            Wanted::MoreDialogs { date, id, after } => WantedView::MoreDialogs { date, id, after },
            Wanted::TopDialogs => WantedView::TopDialogs,
            Wanted::FirstDialogs => WantedView::FirstDialogs,
            Wanted::Newest { chat, peer, noted } => WantedView::Newest { chat, peer, noted },
            Wanted::Older { chat, peer, offset } => WantedView::Older { chat, peer, offset },
            Wanted::Message { chat, peer, text } => WantedView::Message {
                chat,
                peer,
                text: text@,
            },
            Wanted::Again { chat, peer, message } => WantedView::Again { chat, peer, message },
            Wanted::First(p) => WantedView::First(p@),
            Wanted::Next(p) => WantedView::Next(p@),
            Wanted::Elsewhere { req, dc } => WantedView::Elsewhere { req: request_view(req), dc },
        }
    }
}

/// What is to be done.
#[derive(Debug, PartialEq, Eq)]
pub enum Do {
    /// Ask the server; see [`Wanted`].
    Ask(Wanted),
    /// Hand an action to the protocol's login machine; answered by [`App::on_machine`].
    Machine(LoginAction),
    /// Read the file of a conversation that is being opened; answered by [`App::open_chat`].
    ReadTail(usize),
    /// Write a file.
    Write(FileWrite),
    /// Bring the previews of a conversation in line with where its cursor is.
    Previews { chat: usize, selected: usize },
    /// Look a file up in the media cache; answered by [`App::on_cached`].
    LookUp { chat: usize, message: usize, id: i64 },
    /// Put a file into the media cache.
    Keep { id: i64, data: Vec<u8> },
    /// Put a photo into the media cache and begin to decode it from there; answered by
    /// [`App::on_decode_begun`].
    Decode { chat: usize, id: i64, data: Vec<u8> },
    /// Give a decoder back.
    ReleaseDecoder,
    /// Start the timer of a decode; answered by [`App::on_decode_timer`].
    DecodeTimer,
    CancelTimer(i32),
    OpenLink(String),
    Copy(String),
    /// Let the development bridge connect, where there is one.
    Bridge,
    /// Turn the log on or off, now and for the next launch.
    Log(bool),
}

/// The values of a [`Do`].
pub enum DoView {
    Ask(WantedView),
    Machine(LoginActionView),
    ReadTail(usize),
    Write(Seq<char>, Seq<u8>),
    Previews { chat: usize, selected: usize },
    LookUp { chat: usize, message: usize, id: i64 },
    Keep { id: i64, data: Seq<u8> },
    Decode { chat: usize, id: i64, data: Seq<u8> },
    ReleaseDecoder,
    DecodeTimer,
    CancelTimer(i32),
    OpenLink(Seq<char>),
    Copy(Seq<char>),
    Bridge,
    Log(bool),
}

impl View for Do {
    type V = DoView;

    open spec fn view(&self) -> DoView {
        match *self {
            Do::Ask(w) => DoView::Ask(w@),
            Do::Machine(a) => DoView::Machine(a@),
            Do::ReadTail(chat) => DoView::ReadTail(chat),
            Do::Write(f) => DoView::Write(f.name@, f.bytes@),
            Do::Previews { chat, selected } => DoView::Previews { chat, selected },
            Do::LookUp { chat, message, id } => DoView::LookUp { chat, message, id },
            Do::Keep { id, data } => DoView::Keep { id, data: data@ },
            Do::Decode { chat, id, data } => DoView::Decode { chat, id, data: data@ },
            Do::ReleaseDecoder => DoView::ReleaseDecoder,
            Do::DecodeTimer => DoView::DecodeTimer,
            Do::CancelTimer(h) => DoView::CancelTimer(h),
            Do::OpenLink(s) => DoView::OpenLink(s@),
            Do::Copy(s) => DoView::Copy(s@),
            Do::Bridge => DoView::Bridge,
            Do::Log(on) => DoView::Log(on),
        }
    }
}

/// The values of some things to do, in order.
pub open spec fn do_views(s: Seq<Do>) -> Seq<DoView> {
    Seq::new(s.len(), |i: int| s[i]@)
}

pub(crate) fn none() -> (r: Vec<Do>)
    ensures
        do_views(r@) == Seq::<DoView>::empty(),
{
    let v: Vec<Do> = Vec::new();
    assert(do_views(v@) =~= Seq::<DoView>::empty());
    v
}

pub(crate) fn just(d: Do) -> (r: Vec<Do>)
    ensures
        do_views(r@) == seq![d@],
{
    let mut v: Vec<Do> = Vec::new();
    v.push(d);
    assert(do_views(v@) =~= seq![d@]);
    v
}

pub(crate) fn also(v: &mut Vec<Do>, d: Do)
    ensures
        do_views(final(v)@) == do_views(old(v)@).push(d@),
{
    let ghost before = v@;
    v.push(d);
    assert(do_views(v@) =~= do_views(before).push(d@));
}

/// What asks for nothing, or for one thing of the server.
pub open spec fn asking(w: Option<WantedView>) -> Seq<DoView> {
    match w {
        Some(w) => seq![DoView::Ask(w)],
        None => seq![],
    }
}

/// The values of something that may be wanted.
pub open spec fn wanted_opt(w: Option<Wanted>) -> Option<WantedView> {
    match w {
        Some(w) => Some(w@),
        None => None,
    }
}

pub(crate) fn ask(w: Option<Wanted>) -> (r: Vec<Do>)
    ensures
        do_views(r@) == asking(wanted_opt(w)),
{
    match w {
        Some(w) => just(Do::Ask(w)),
        None => none(),
    }
}

/// The application.
#[derive(Debug)]
pub struct App {
    /// The connection, where this build drives one.
    pub driver: Option<Driver>,
    pub store: Store,
    pub login: Login,
    pub screen: Screen,
    /// Set when the application wants to close.
    pub should_exit: bool,
    /// A conversation whose first page is on its way, so that it does not open on a single bubble.
    pub opening_chat: Option<usize>,
    /// Whether the page of dialogs in flight was asked for from the top, and so replaces the list
    /// rather than being put below it.
    pub dialogs_from_top: bool,
    /// The download in flight. One at a time.
    pub pending: Option<PendingFile>,
    /// A decode in flight, by the conversation to return to.
    pub decoding: Option<usize>,
    /// Where the running decode reads from.
    pub decode_src: &'static str,
    /// The timer that fires if a decode does not report.
    pub decode_watchdog: Option<i32>,
    /// The language things are said in.
    pub lang: Lang,
}

/// The values of an [`App`].
#[verifier::ext_equal]
pub struct AppView {
    pub driver: Option<DriverView>,
    pub store: StoreView,
    pub login: LoginView,
    pub screen: ScreenView,
    pub should_exit: bool,
    pub opening_chat: Option<usize>,
    pub dialogs_from_top: bool,
    pub pending: Option<PendingView>,
    pub decoding: Option<usize>,
    pub decode_src: &'static str,
    pub decode_watchdog: Option<i32>,
    pub lang: Lang,
}

/// The values of a driver that may not be there.
pub open spec fn driver_opt(d: Option<Driver>) -> Option<DriverView> {
    match d {
        Some(d) => Some(d@),
        None => None,
    }
}

impl View for App {
    type V = AppView;

    open spec fn view(&self) -> AppView {
        AppView {
            driver: driver_opt(self.driver),
            store: self.store@,
            login: self.login@,
            screen: self.screen@,
            should_exit: self.should_exit,
            opening_chat: self.opening_chat,
            dialogs_from_top: self.dialogs_from_top,
            pending: pending_opt(self.pending),
            decoding: self.decoding,
            decode_src: self.decode_src,
            decode_watchdog: self.decode_watchdog,
            lang: self.lang,
        }
    }
}

impl AppView {
    /// Whether the conversation in front is one of the list.
    pub open spec fn sound(self) -> bool {
        self.screen matches ScreenView::Conversation(c) ==> c.chat < self.store.chats.len()
    }

    /// The chat at an index.
    pub open spec fn chat(self, i: usize) -> Option<ChatView> {
        if i < self.store.chats.len() {
            Some(self.store.chats[i as int])
        } else {
            None
        }
    }

    /// Who the chat at an index is with.
    pub open spec fn peer(self, i: usize) -> Option<PeerRef> {
        match self.chat(i) {
            Some(c) => c.peer,
            None => None,
        }
    }

    /// The application with another chat at an index.
    pub open spec fn with_chat(self, i: usize, c: ChatView) -> AppView {
        AppView {
            store: StoreView { chats: self.store.chats.update(i as int, c), ..self.store },
            ..self
        }
    }

    /// The application with another status line.
    pub open spec fn with_status(self, words: Seq<char>) -> AppView {
        AppView { store: StoreView { status: words, ..self.store }, ..self }
    }

    /// The application with another screen in front.
    pub open spec fn showing(self, screen: ScreenView) -> AppView {
        AppView { screen, ..self }
    }

    /// The application with a note on the conversation in front, where one is.
    pub open spec fn noting(self, note: Option<Seq<char>>) -> AppView {
        match self.screen {
            ScreenView::Conversation(c) => self.showing(
                ScreenView::Conversation(ConvView { note, ..c }),
            ),
            _ => self,
        }
    }

    /// The application after it said something, wherever the user is looking: in the status line,
    /// and on the conversation in front.
    pub open spec fn saying(self, words: Seq<char>) -> AppView {
        self.noting(Some(words)).with_status(words)
    }
}

/// An application that holds some chats, with a screen in front and nothing under way.
pub open spec fn started(
    driver: Option<DriverView>,
    store: StoreView,
    login: LoginView,
    screen: ScreenView,
) -> AppView {
    AppView {
        driver,
        store,
        login,
        screen,
        should_exit: false,
        opening_chat: None,
        dialogs_from_top: true,
        pending: None,
        decoding: None,
        decode_src: "",
        decode_watchdog: None,
        lang: Lang::En,
    }
}

// ---- the chat list and its conversations ----------------------------------------------------------

/// What becomes of a wish for the next page of dialogs: nothing while one is in flight or all are
/// here.
pub open spec fn more_dialogs(s: AppView) -> (AppView, Option<WantedView>) {
    if s.store.dialogs_loading || s.store.dialogs_complete {
        (s, None)
    } else {
        let n = AppView { dialogs_from_top: false, ..s };
        if s.driver is Some {
            (
                AppView { store: StoreView { dialogs_loading: true, ..s.store }, ..n },
                Some(
                    WantedView::MoreDialogs {
                        date: s.store.dialog_offset_date,
                        id: s.store.dialog_offset_id,
                        after: s.store.dialog_offset_peer,
                    },
                ),
            )
        } else {
            (AppView { store: StoreView { dialogs_complete: true, ..s.store }, ..n }, None)
        }
    }
}

/// What becomes of a wish for the list from the top.
pub open spec fn top_dialogs(s: AppView) -> (AppView, Option<WantedView>) {
    if s.store.dialogs_loading {
        (s.with_status("ja atualizando..."@), None)
    } else if s.driver is None {
        (s.with_status(strings::wording(s.lang, "no connection", "sem conexão")@), None)
    } else {
        (s, Some(WantedView::TopDialogs))
    }
}

/// What becomes of a wish for the newest page of a conversation.
pub open spec fn newest(s: AppView, i: usize, noted: bool) -> (AppView, Option<WantedView>) {
    match s.chat(i) {
        None => (s, None),
        Some(c) => if c.loading {
            (s.with_status("ja atualizando..."@), None)
        } else {
            match c.peer {
                None => (s.with_status("sem peer"@), None),
                Some(peer) => if s.driver is None {
                    (s.with_status("sem conexao"@), None)
                } else {
                    (s, Some(WantedView::Newest { chat: i, peer, noted }))
                },
            }
        },
    }
}

/// What becomes of a wish for the page above what a conversation holds: nothing while one is in
/// flight, none is left, or it would not be kept.
pub open spec fn older(s: AppView, i: usize) -> (AppView, Option<WantedView>) {
    match s.chat(i) {
        None => (s, None),
        Some(c) => if c.loading || c.complete || c.windowed {
            (s, None)
        } else {
            match c.peer {
                None => (s, None),
                Some(peer) => if s.driver is Some {
                    (
                        s.with_chat(i, ChatView { loading: true, ..c }),
                        Some(WantedView::Older { chat: i, peer, offset: c.oldest }),
                    )
                } else {
                    (s.with_chat(i, ChatView { complete: true, ..c }), None)
                },
            }
        },
    }
}

/// What becomes of a wish for one message again.
pub open spec fn again(s: AppView, i: usize, message: i32) -> (AppView, Option<WantedView>) {
    match s.peer(i) {
        None => (s.with_status("refresh: sem peer"@), None),
        Some(peer) => if s.driver is Some {
            (s, Some(WantedView::Again { chat: i, peer, message }))
        } else {
            (s, None)
        },
    }
}

/// A message of one's own, as it is put at the end of its conversation.
pub open spec fn own_message(words: Seq<char>, time: Seq<char>, state: Delivery) -> MessageView {
    MessageView { id: 0, text: words, outgoing: true, time, state, media: None }
}

/// The application after a message was handed on, or could not be. It is shown at once, and the
/// conversation is laid out again with the keys at the composer.
pub open spec fn posted(
    s: AppView,
    i: usize,
    words: Seq<char>,
    accepted: bool,
    time: Seq<char>,
) -> AppView {
    let state = if s.driver is Some && !accepted {
        Delivery::Failed
    } else {
        Delivery::Pending
    };
    let c = s.store.chats[i as int];
    let n = pages::trimmed(pages::appended(c, own_message(words, time, state)));
    let kept = s.with_chat(i, ChatView { last_outgoing: true, ..n });
    match s.screen {
        ScreenView::Conversation(_) => kept.showing(ScreenView::Conversation(conv::opened(i))),
        _ => kept,
    }
}

/// What becomes of a message that was typed.
pub open spec fn sending(s: AppView, i: usize, words: Seq<char>, time: Seq<char>) -> (
    AppView,
    Option<WantedView>,
) {
    match s.peer(i) {
        Some(peer) => if s.driver is Some {
            (s, Some(WantedView::Message { chat: i, peer, text: words }))
        } else {
            (posted(s, i, words, false, time), None)
        },
        None => (posted(s, i, words, false, time), None),
    }
}

/// What a press on a chat comes to, given what its file held. With a conversation on disk it opens
/// at once and asks for what is new; without one, a connected application waits for the first page.
pub open spec fn opening(s: AppView, i: usize, file: Option<Seq<u8>>) -> (
    AppView,
    Option<WantedView>,
) {
    match s.chat(i) {
        None => (s, None),
        Some(c) => {
            let read = ChatView { unread: 0, ..c };
            let restored = cache_files::refills(read, file);
            let held = s.with_chat(i, cache_files::refilled(read, file));
            let shown = if s.driver is Some && !restored {
                AppView { opening_chat: Some(i), ..held }
            } else {
                held.showing(ScreenView::Conversation(conv::opened(i)))
            };
            if restored {
                newest(shown, i, false)
            } else {
                older(shown, i)
            }
        },
    }
}

/// What a conversation in front is brought in line with: its previews, where its cursor is.
pub open spec fn window(s: AppView, i: usize) -> Seq<DoView> {
    match s.screen {
        ScreenView::Conversation(c) => if c.chat == i && i < s.store.chats.len() {
            seq![DoView::Previews { chat: i, selected: c.state.selected }]
        } else {
            seq![]
        },
        _ => seq![],
    }
}

// ---- downloads ------------------------------------------------------------------------------------

/// The attachment of a message.
pub open spec fn media_at(s: AppView, i: usize, message: usize) -> Option<MediaView> {
    match s.chat(i) {
        Some(c) => if message < c.messages.len() {
            c.messages[message as int].media
        } else {
            None
        },
        None => None,
    }
}

/// What the bytes look like: how many, whether they begin as a JPEG does, and whether they end as
/// one does. One that begins and does not end is a download that was cut short.
pub open spec fn shape(b: Seq<u8>) -> Seq<char> {
    let n = b.len();
    text::decimal(n) + (if n >= 2 && b[0] == 0xff && b[1] == 0xd8 {
        "B SOI"@
    } else {
        "B no-SOI"@
    }) + (if n >= 2 && b[n - 2] == 0xff && b[n - 1] == 0xd9 {
        "+EOI"@
    } else {
        "+NO-EOI"@
    })
}

/// What becomes of a photo that is to be shown. It is decoded from the media cache, so one without a
/// place there, such as a preview, cannot be.
pub open spec fn decoding(s: AppView, i: usize, id: Option<i64>, data: Seq<u8>) -> (
    AppView,
    Seq<DoView>,
) {
    let released = if s.decoding is Some {
        seq![DoView::ReleaseDecoder]
    } else {
        seq![]
    };
    let n = AppView { decoding: None, ..s };
    match id {
        Some(id) => (n, released.push(DoView::Decode { chat: i, id, data })),
        None => (n.saying("decode: sem arquivo para decodificar"@), released),
    }
}

/// What becomes of a press on a message with media. Nothing is fetched that is not asked for here.
pub open spec fn downloading(s: AppView, i: usize, message: usize) -> (AppView, Seq<DoView>) {
    match media_at(s, i, message) {
        None => (s.saying("download: sem media"@), seq![]),
        Some(m) => match m.preview() {
            Some(bytes) => decoding(s, i, None, bytes),
            None => if m is Sticker {
                (s.saying("sticker: formato WebP, sem decoder"@), seq![])
            } else if m.kind() is None {
                (s.saying("download: nada para baixar"@), seq![])
            } else {
                (s, seq![DoView::LookUp { chat: i, message, id: m.file_id() }])
            },
        },
    }
}

/// The request for the first chunk of an attachment.
pub open spec fn first_request(m: MediaView, i: usize) -> RequestView {
    let (access_hash, file_reference) = match m {
        MediaView::Photo { access_hash, file_reference, .. } => (access_hash, file_reference),
        MediaView::Voice { access_hash, file_reference, .. } => (access_hash, file_reference),
        MediaView::Audio { access_hash, file_reference, .. } => (access_hash, file_reference),
        MediaView::File { access_hash, file_reference, .. } => (access_hash, file_reference),
        MediaView::Sticker { access_hash, file_reference, .. } => (access_hash, file_reference),
        MediaView::Unknown => (0, seq![]),
    };
    RequestView {
        chat: i,
        is_photo: m is Photo,
        id: m.file_id(),
        access_hash,
        file_reference,
        thumb_size: match m {
            MediaView::Photo { thumb_size, .. } => thumb_size,
            _ => seq![],
        },
        offset: 0,
    }
}

/// What becomes of an attachment that was looked up in the media cache.
pub open spec fn looked_up(s: AppView, i: usize, message: usize, cached: Option<Seq<u8>>) -> (
    AppView,
    Seq<DoView>,
) {
    match media_at(s, i, message) {
        None => (s, seq![]),
        Some(m) => match m.kind() {
            None => (s, seq![]),
            Some(kind) => match cached {
                Some(data) => match kind {
                    MediaKind::Photo => decoding(
                        s.saying("do cache"@),
                        i,
                        Some(m.file_id()),
                        data,
                    ),
                    MediaKind::File => (
                        s.saying(
                            "arquivo: "@ + text::decimal(data.len() / 1024) + " KB, no cache"@,
                        ),
                        seq![],
                    ),
                    _ => (s.saying("audio: sem suporte ainda"@), seq![]),
                },
                None => if s.pending is Some {
                    (s.saying("download: aguarde o anterior"@), seq![])
                } else if s.driver is None {
                    (s.saying("download: sem driver"@), seq![])
                } else {
                    (
                        s,
                        seq![
                            DoView::Ask(
                                WantedView::First(
                                    PendingView {
                                        msg_id: s.chat(i)->0.messages[message as int].id,
                                        kind,
                                        dc: m.dc_id() as u8,
                                        req: first_request(m, i),
                                        got: seq![],
                                    },
                                ),
                            ),
                        ],
                    )
                },
            },
        },
    }
}

/// How many whole kilobytes some bytes are, between two pieces of text.
pub open spec fn kilobytes(before: Seq<char>, n: nat, after: Seq<char>) -> Seq<char> {
    before + text::decimal(n / 1024) + after
}

/// What becomes of a chunk that came: a full one asks for the next, a short one ends the file.
pub open spec fn chunk_came(s: AppView, chunk: Option<Seq<u8>>) -> (AppView, Seq<DoView>) {
    let n = AppView { pending: None, ..s };
    match chunk {
        None => (n.saying("download: parse falhou"@), seq![]),
        Some(b) => match s.pending {
            None => (n.saying("download: sem pedido correspondente"@), seq![]),
            Some(p) => {
                let got = p.got + b;
                if got.len() > MAX_FILE_BYTES {
                    (
                        n.saying(kilobytes("arquivo grande demais ("@, got.len(), " KB)"@)),
                        seq![],
                    )
                } else if b.len() == CHUNK {
                    let next = PendingView {
                        req: RequestView { offset: got.len() as i64, ..p.req },
                        got,
                        ..p
                    };
                    if s.driver is Some {
                        (n, seq![DoView::Ask(WantedView::Next(next))])
                    } else {
                        (n.saying("download: interrompido"@), seq![])
                    }
                } else {
                    match p.kind {
                        MediaKind::Photo => decoding(n, p.req.chat, Some(p.req.id), got),
                        MediaKind::File => (
                            n.saying(kilobytes("arquivo: "@, got.len(), " KB, sem visualizador"@)),
                            seq![DoView::Keep { id: p.req.id, data: got }],
                        ),
                        _ => (
                            n.saying("audio: sem suporte ainda"@),
                            seq![DoView::Keep { id: p.req.id, data: got }],
                        ),
                    }
                }
            },
        },
    }
}

/// How the beginning of a decode went.
#[derive(Clone, Copy, Debug, PartialEq, Eq, Structural)]
pub enum DecodeStart {
    /// There was nowhere to write the picture.
    NoFile,
    /// The decoder would not begin, with a code.
    Refused(i32),
    Begun,
}

/// What becomes of a decode that began, or did not.
pub open spec fn decode_begun(s: AppView, i: usize, data: Seq<u8>, start: DecodeStart) -> (
    AppView,
    Seq<DoView>,
) {
    match start {
        DecodeStart::NoFile => (
            s.saying("decode: sem arquivo para decodificar"@),
            seq![],
        ),
        DecodeStart::Refused(code) => (
            s.saying("decode recusou: "@ + text::signed_decimal(code as int)),
            seq![],
        ),
        DecodeStart::Begun => (
            AppView {
                decoding: Some(i),
                decode_src: "cage",
                ..s.saying("dec "@ + shape(data) + " src=cage"@)
            },
            seq![DoView::DecodeTimer],
        ),
    }
}

/// How a decode ended.
#[derive(Clone, Copy, Debug, PartialEq, Eq, Structural)]
pub enum Decoded {
    /// It failed, with a code.
    Failed(i32),
    /// It went well, and the picture is there.
    Picture,
    /// It went well, and the picture could not be had, with a code.
    NoPicture(i32),
}

/// What becomes of a decode that ended. Its timer is cancelled rather than forgotten: a handle can be
/// given out again, and a stale one would look like the next decode's.
pub open spec fn decode_ended(s: AppView, d: Decoded) -> (AppView, Seq<DoView>) {
    let fx = match s.decode_watchdog {
        Some(h) => seq![DoView::CancelTimer(h)],
        None => seq![],
    };
    let n = AppView { decode_watchdog: None, decoding: None, ..s };
    match s.decoding {
        None => (n, fx),
        Some(i) => match d {
            Decoded::Failed(code) => (
                n.saying("decode falhou: "@ + text::signed_decimal(code as int)),
                fx.push(DoView::ReleaseDecoder),
            ),
            Decoded::NoPicture(code) => (
                n.saying("decode sem pixels: "@ + text::signed_decimal(code as int)),
                fx.push(DoView::ReleaseDecoder),
            ),
            Decoded::Picture => (
                n.with_status(seq![]).showing(ScreenView::Viewer(i)),
                fx.push(DoView::ReleaseDecoder),
            ),
        },
    }
}

/// How far a decode that does not report got.
#[derive(Clone, Copy, Debug, PartialEq, Eq, Structural)]
pub struct DecodeProgress {
    pub native_w: i32,
    pub native_h: i32,
    pub frames: i32,
    pub factor: i32,
    pub active: bool,
    pub mode: i32,
    pub frame_flags: u32,
    pub continues: i32,
}

/// The hexadecimal digits of a number, most significant first.
pub open spec fn hex_words(v: nat) -> Seq<char>
    decreases v,
{
    if v < 16 {
        seq![text::hex_digit(v as u64)]
    } else {
        hex_words(v / 16).push(text::hex_digit((v % 16) as u64))
    }
}

/// What is said of a decode that does not report: on screen, since whoever holds the handset has no
/// log to read.
pub open spec fn stuck_words(src: Seq<char>, p: Option<DecodeProgress>) -> Seq<char> {
    match p {
        None => "travou: decoder sumiu"@,
        Some(p) => "travou "@ + src + " "@ + text::signed_decimal(p.native_w as int) + "x"@
            + text::signed_decimal(p.native_h as int) + " f"@ + text::signed_decimal(
            p.frames as int,
        ) + " r"@ + text::signed_decimal(p.factor as int) + " a"@ + text::decimal(
            if p.active {
                1nat
            } else {
                0nat
            },
        ) + " m"@ + text::signed_decimal(p.mode as int) + " fl"@ + hex_words(p.frame_flags as nat)
            + " c"@ + text::signed_decimal(p.continues as int),
    }
}

/// What becomes of a decode that does not report in time.
pub open spec fn decode_stuck(s: AppView, p: Option<DecodeProgress>) -> (AppView, Seq<DoView>) {
    let n = AppView { decode_watchdog: None, ..s };
    (
        AppView { decoding: None, ..n.saying(stuck_words(s.decode_src@, p)) },
        if s.decoding is Some {
            seq![DoView::ReleaseDecoder]
        } else {
            seq![]
        },
    )
}

// ---- replies --------------------------------------------------------------------------------------

/// A reply, parsed: nothing in an arm whose bytes did not parse.
#[derive(Debug)]
pub enum Reply {
    Dialogs(Option<proto::Dialogs>),
    History(Option<proto::Dialogs>),
    /// The first message of a reply to a request for one again.
    Again(Option<proto::Message>),
    Sent,
    File(Option<Vec<u8>>),
}

/// What a reply has to be parsed as, by the tag of what was asked.
#[derive(Clone, Copy, Debug, PartialEq, Eq, Structural)]
pub enum Parse {
    Dialogs,
    History,
    Again,
    Sent,
    File,
    Nothing,
}

/// What a reply has to be parsed as.
pub open spec fn parse_of(tag: u32) -> Parse {
    if tag == TAG_DIALOGS {
        Parse::Dialogs
    } else if driver::kind_of(tag) == TAG_HISTORY {
        Parse::History
    } else if driver::kind_of(tag) == TAG_REFRESH {
        Parse::Again
    } else if driver::kind_of(tag) == TAG_SEND {
        Parse::Sent
    } else if driver::kind_of(tag) == TAG_FILE {
        Parse::File
    } else {
        Parse::Nothing
    }
}

/// The file the chat list is kept in, after it changed.
pub open spec fn list_written(s: AppView) -> Seq<DoView> {
    seq![DoView::Write("chats.bin"@, store_cache::enc_list(s.store.chats))]
}

/// The file a conversation is kept in, after it changed.
pub open spec fn tail_written(c: ChatView) -> Seq<DoView> {
    if c.messages.len() == 0 || c.peer is None {
        seq![]
    } else {
        seq![
            DoView::Write(cache_files::tail_file(c.peer->0), store_cache::enc_tail(c)),
        ]
    }
}

/// What becomes of a page of dialogs. One asked for from the top replaces the list, and keeps what
/// the status line says; another goes below it.
pub open spec fn dialogs_came(s: AppView, page: Option<proto::Dialogs>, offset: int) -> (
    AppView,
    Seq<DoView>,
) {
    match page {
        None => (
            AppView { store: StoreView { dialogs_loading: false, ..s.store }, ..s },
            seq![],
        ),
        Some(d) => {
            let n = if s.dialogs_from_top {
                AppView {
                    dialogs_from_top: false,
                    store: StoreView { status: s.store.status, ..pages::first_store(d@, offset) },
                    ..s
                }
            } else {
                AppView { store: pages::after_dialogs(s.store, d@, offset), ..s }
            };
            (n, list_written(n))
        },
    }
}

/// A cursor moved down by some rows.
pub open spec fn shifted(state: ListState, n: int) -> ListState {
    ListState {
        selected: if state.selected + n <= usize::MAX {
            (state.selected + n) as usize
        } else {
            usize::MAX
        },
        ..state
    }
}

/// A conversation after a page of its history came: the cursor stays on the bubble it was on, and a
/// note that said that it was reading again goes.
pub open spec fn reread(c: ConvView, shift: int) -> ConvView {
    ConvView {
        state: shifted(c.state, shift),
        note: if c.note == Some("recarregando..."@) {
            None
        } else {
            c.note
        },
        ..c
    }
}

/// What becomes of a page of a conversation. One that was being opened is shown now.
pub open spec fn history_came(s: AppView, i: usize, page: Option<proto::Dialogs>, offset: int) -> (
    AppView,
    Seq<DoView>,
) {
    match s.peer(i) {
        None => (s, seq![]),
        Some(peer) => {
            let c = s.store.chats[i as int];
            match page {
                None => (
                    s.with_chat(i, ChatView { loading: false, complete: true, ..c }),
                    seq![],
                ),
                Some(p) => {
                    let after = pages::after_history(c, p@.messages, peer.id, offset);
                    let shift = pages::prepended(c, p@.messages, peer.id, offset);
                    let held = s.with_chat(i, after);
                    let shown = if s.opening_chat == Some(i) {
                        AppView { opening_chat: None, ..held }.showing(
                            ScreenView::Conversation(conv::opened(i)),
                        )
                    } else {
                        held
                    };
                    let n = match shown.screen {
                        ScreenView::Conversation(v) => if v.chat == i {
                            shown.showing(ScreenView::Conversation(reread(v, shift)))
                        } else {
                            shown
                        },
                        _ => shown,
                    };
                    (n, tail_written(after))
                },
            }
        },
    }
}

/// The last message that waits for the server.
pub open spec fn last_pending(m: Seq<MessageView>) -> Option<int>
    decreases m.len(),
{
    if m.len() == 0 {
        None
    } else if m.last().state == Delivery::Pending {
        Some(m.len() - 1)
    } else {
        last_pending(m.drop_last())
    }
}

/// A conversation whose last waiting message was taken by the server.
pub open spec fn acknowledged(c: ChatView) -> ChatView {
    match last_pending(c.messages) {
        Some(k) => ChatView {
            messages: c.messages.update(
                k,
                MessageView { state: Delivery::Sent, ..c.messages[k] },
            ),
            ..c
        },
        None => c,
    }
}

/// What becomes of a reply. `offset` is how far east of UTC the handset's clock is.
pub open spec fn replied(s: AppView, tag: u32, reply: Reply, offset: int) -> (
    AppView,
    Seq<DoView>,
) {
    let i = (tag & TAG_INDEX) as usize;
    match (parse_of(tag), reply) {
        (Parse::Dialogs, Reply::Dialogs(page)) => dialogs_came(s, page, offset),
        (Parse::History, Reply::History(page)) => history_came(s, i, page, offset),
        (Parse::Again, Reply::Again(m)) => match (m, s.chat(i)) {
            (Some(m), Some(c)) => (
                s.with_chat(i, pages::refreshed(c, m@.id, m@)),
                seq![],
            ),
            _ => (s, seq![]),
        },
        (Parse::Sent, Reply::Sent) => match s.chat(i) {
            Some(c) => (s.with_chat(i, acknowledged(c)), seq![]),
            None => (s, seq![]),
        },
        (Parse::File, Reply::File(b)) => chunk_came(s, proto::bytes_opt(b)),
        _ => (s, seq![]),
    }
}

// ---- what the driver reports ----------------------------------------------------------------------

/// What becomes of a download the server refused. `elsewhere` is the data centre the refusal names,
/// where it names one.
pub open spec fn file_refused(s: AppView, tag: u32, words: Seq<char>, elsewhere: Option<u8>) -> (
    AppView,
    Seq<DoView>,
) {
    let gone = AppView { pending: None, ..s };
    if text::has_prefix(words, "FILE_REFERENCE_EXPIRED"@) {
        let (i, message) = match s.pending {
            Some(p) => (p.req.chat, p.msg_id),
            None => ((tag & TAG_INDEX) as usize, 0),
        };
        let (n, w) = again(gone, i, message);
        (n, asking(w))
    } else {
        match elsewhere {
            Some(dc) => match s.pending {
                Some(p) => {
                    let moved = PendingView {
                        dc,
                        req: RequestView { offset: p.got.len() as i64, ..p.req },
                        ..p
                    };
                    if s.driver is Some {
                        (
                            AppView { pending: Some(moved), ..s },
                            seq![DoView::Ask(WantedView::Elsewhere { req: moved.req, dc })],
                        )
                    } else {
                        (gone.with_status("download: outro servidor, sem rota"@), seq![])
                    }
                },
                None => (gone.with_status("download: outro servidor, sem rota"@), seq![]),
            },
            None => (gone.saying("download: "@ + words), seq![]),
        }
    }
}

/// What becomes of what the driver reports, other than a reply.
pub open spec fn reported(s: AppView, out: Outcome, elsewhere: Option<u8>) -> (
    AppView,
    Handled,
    Seq<DoView>,
) {
    match out {
        Outcome::Redraw => (s, Handled::Consumed, seq![]),
        Outcome::Authorized => (
            AppView {
                dialogs_from_top: true,
                ..s.showing(ScreenView::Chats(ListState { selected: 0, scroll: 0 }))
            },
            Handled::Consumed,
            seq![DoView::Ask(WantedView::FirstDialogs), DoView::Bridge],
        ),
        Outcome::RequestFailed(tag, words) => if driver::kind_of(tag) == TAG_FILE {
            let (n, fx) = file_refused(s, tag, words@, elsewhere);
            (n, Handled::Consumed, fx)
        } else {
            (s, Handled::Consumed, seq![])
        },
        Outcome::Disconnected(why) => (
            AppView {
                login: LoginView { screen: login::with_error(s.login.screen, why@), ..s.login },
                ..s
            },
            Handled::Consumed,
            seq![],
        ),
        Outcome::Answered(_, _) => (s, Handled::Consumed, seq![]),
        Outcome::Nothing => (s, Handled::Ignored, seq![]),
    }
}

/// What is said of a refresh that went out, or waits.
pub open spec fn told(sent: bool) -> Seq<char> {
    if sent {
        "atualizando..."@
    } else {
        "atualizacao na fila"@
    }
}

/// The application after the list was asked for from the top.
pub open spec fn top_asked(s: AppView, sent: bool) -> AppView {
    AppView {
        dialogs_from_top: true,
        store: StoreView {
            dialogs_loading: true,
            dialogs_complete: false,
            status: told(sent),
            ..s.store
        },
        ..s
    }
}

/// The application after the newest page of a conversation was asked for.
pub open spec fn newest_asked(s: AppView, chat: usize, noted: bool, sent: bool) -> AppView {
    let held = match s.chat(chat) {
        Some(c) => s.with_chat(chat, ChatView { loading: true, ..c }),
        None => s,
    };
    let n = held.with_status(told(sent));
    if noted {
        n.noting(Some(told(sent)))
    } else {
        n
    }
}

/// The application after the first chunk of a file was asked for, or could not be. `home` is the data
/// centre of the session.
pub open spec fn first_asked(s: AppView, p: PendingView, sent: bool, home: u8) -> AppView {
    if sent {
        AppView { pending: Some(p), ..s }.with_status(
            if p.dc != 0 && p.dc != home {
                "conectando ao servidor da midia..."@
            } else {
                "baixando..."@
            },
        )
    } else {
        s.saying("download: fila (link ocupado)"@)
    }
}

/// The application after a further chunk of a file was asked for, or could not be.
pub open spec fn next_asked(s: AppView, p: PendingView, sent: bool) -> AppView {
    if sent {
        AppView {
            pending: Some(p),
            ..s.saying(kilobytes("baixando "@, p.got.len(), " KB..."@))
        }
    } else {
        s.saying("download: interrompido"@)
    }
}

/// The application after a chunk was asked for at another data centre, or could not be.
pub open spec fn elsewhere_asked(s: AppView, dc: u8, sent: bool) -> AppView {
    if sent {
        s.saying("buscando no servidor "@ + text::decimal(dc as nat) + "..."@)
    } else {
        AppView { pending: None, ..s }.with_status("download: outro servidor, sem rota"@)
    }
}

/// What becomes of something that was asked for, once it is known whether it went out. `home` is the
/// data centre of the session.
pub open spec fn went_out(s: AppView, w: WantedView, sent: bool, home: u8, time: Seq<char>) -> AppView {
    match w {
        WantedView::TopDialogs => top_asked(s, sent),
        WantedView::Newest { chat, noted, .. } => newest_asked(s, chat, noted, sent),
        WantedView::Message { chat, text, .. } => if chat < s.store.chats.len() {
            posted(s, chat, text, sent, time)
        } else {
            s
        },
        WantedView::First(p) => first_asked(s, p, sent, home),
        WantedView::Next(p) => next_asked(s, p, sent),
        WantedView::Elsewhere { dc, .. } => elsewhere_asked(s, dc, sent),
        _ => s,
    }
}

/// What becomes of something that was asked for at a moment, `offset` seconds east of UTC.
pub open spec fn sent_on(s: AppView, w: WantedView, sent: bool, now: int, offset: int) -> AppView {
    went_out(
        s,
        w,
        sent,
        match s.driver {
            Some(d) => driver::dc_of(d),
            None => 0,
        },
        pages::clock(now, offset),
    )
}

/// What the login machine is handed, as the login waits for it.
pub open spec fn handed(l: LoginView, a: LoginActionView, act: Action) -> LoginView {
    let authorized = login::over(l, act);
    match a {
        LoginActionView::SendCode(number) => LoginView {
            screen: login::ScreenView::Waiting("sending the code"),
            phone: number,
            authorized,
            ..l
        },
        LoginActionView::SubmitCode(_) => LoginView {
            screen: login::ScreenView::Waiting("signing in"),
            authorized,
            ..l
        },
        LoginActionView::SubmitPassword(_) => LoginView {
            screen: login::ScreenView::Waiting("checking the password"),
            authorized,
            ..l
        },
        LoginActionView::Resend => LoginView {
            screen: login::ScreenView::Waiting("resending the code"),
            authorized,
            ..l
        },
        _ => l,
    }
}

/// What becomes of a login action the machine has answered. What the connection cannot carry is said
/// on the login screen, rather than leaving it to wait for nothing.
pub open spec fn machine_answered(s: AppView, a: LoginActionView, act: Action) -> (
    AppView,
    Seq<FxView>,
) {
    if a is Back || a is Nothing {
        (s, seq![])
    } else {
        let l = handed(s.login, a, act);
        match s.driver {
            None => (AppView { login: l, ..s }, seq![]),
            Some(d) => {
                let t = driver::on_login(d, login::relayed(act));
                let shown = match t.out {
                    OutcomeView::Disconnected(why) => LoginView {
                        screen: login::with_error(l.screen, why@),
                        ..l
                    },
                    _ => l,
                };
                (AppView { login: shown, driver: Some(t.s), ..s }, t.fx)
            },
        }
    }
}

/// The application after the driver took an event: the login screens hear what the connection says.
pub open spec fn driven(s: AppView, d: DriverView, ready: bool) -> AppView {
    AppView {
        driver: Some(d),
        login: LoginView { status: d.status, connected: d.home is Some && ready, ..s.login },
        ..s
    }
}

/// What the platform reports, other than keys.
#[derive(Debug)]
pub enum Raw {
    /// The development bridge took an event that asks to close the application.
    Bridged,
    /// A timer fired. Where it is a decode's own, how far the decode got, if its decoder still says.
    Timer { handle: i32, progress: Option<DecodeProgress> },
    /// A decode ended. `mine` when it is the one that runs here, not one given up before.
    ImageDone { mine: bool, decoded: Decoded },
    /// Anything else, which is the driver's.
    Other(Event),
}

/// What comes of it.
#[derive(Debug)]
pub enum RawNext {
    /// It is dealt with.
    Done(Handled, Vec<Do>),
    /// The driver took it. What it reports goes to [`App::on_answer`] when it is a reply, and
    /// otherwise to [`App::on_outcome`].
    Driven(Outcome, Vec<Effect>),
}

/// The event of the driver's that a report is, where it is one.
pub open spec fn driver_event(s: AppView, raw: Raw) -> Option<Event> {
    match raw {
        Raw::Bridged => None,
        Raw::Timer { handle, .. } => if s.decode_watchdog == Some(handle) {
            None
        } else {
            Some(Event::Timer(handle))
        },
        Raw::ImageDone { .. } => None,
        Raw::Other(ev) => Some(ev),
    }
}

/// What a report that is not the driver's comes to. The timer of a decode is told by its handle, and
/// so is a decode that was given up: its end must not open a picture over whatever is in front now.
pub open spec fn undriven(s: AppView, raw: Raw) -> (AppView, Handled, Seq<DoView>) {
    match raw {
        Raw::Bridged => (AppView { should_exit: true, ..s }, Handled::Consumed, seq![]),
        Raw::Timer { progress, .. } => {
            let (n, fx) = decode_stuck(s, progress);
            (n, Handled::Consumed, fx)
        },
        Raw::ImageDone { mine, decoded } => if mine {
            let (n, fx) = decode_ended(s, decoded);
            (n, Handled::Consumed, fx)
        } else {
            (s, Handled::Ignored, seq![])
        },
        Raw::Other(_) => (s, Handled::Ignored, seq![]),
    }
}

// ---- keys -----------------------------------------------------------------------------------------

/// What a key on a login screen comes to.
pub open spec fn login_keyed(s: AppView, key: Key, edit: Option<Edit>) -> (
    AppView,
    Handled,
    Seq<DoView>,
) {
    let (screen, h, a) = login::pressed(s.login.screen, key, edit);
    let n = AppView { login: LoginView { screen, ..s.login }, ..s };
    match a {
        LoginActionView::Nothing => (n, h, seq![]),
        LoginActionView::Back => (
            AppView { should_exit: true, ..n },
            Handled::Consumed,
            seq![],
        ),
        other => (n, Handled::Consumed, seq![DoView::Machine(other)]),
    }
}

/// What an action of the list comes to.
pub open spec fn list_acted(s: AppView, a: ChatListAction) -> (AppView, Handled, Seq<DoView>) {
    match a {
        ChatListAction::Open(i) => (s, Handled::Consumed, seq![DoView::ReadTail(i)]),
        ChatListAction::Exit => (AppView { should_exit: true, ..s }, Handled::Consumed, seq![]),
        ChatListAction::LoadMore => {
            let (n, w) = more_dialogs(s);
            (n, Handled::Consumed, asking(w))
        },
        ChatListAction::Refresh => {
            let (n, w) = top_dialogs(s);
            (n, Handled::Consumed, asking(w))
        },
        ChatListAction::Nothing => (s, Handled::Ignored, seq![]),
    }
}

/// What a key on the list comes to: the list's own first, and then what it does on this screen.
pub open spec fn chats_keyed(
    s: AppView,
    state: ListState,
    key: Key,
    row_h: int,
    viewport_h: int,
    answer: Answer,
) -> (AppView, Handled, Seq<DoView>) {
    let count = s.store.chats.len() as int;
    let (to, h, a) = chats::list_keyed(state, key, count, row_h, viewport_h, answer);
    let n = s.showing(ScreenView::Chats(to));
    if a == ChatListAction::Nothing {
        if h == Handled::Consumed {
            (n, h, seq![])
        } else {
            list_acted(n, chats::activated(to.selected, key, count))
        }
    } else {
        list_acted(n, a)
    }
}

/// What an action of a conversation comes to.
pub open spec fn conv_acted(s: AppView, i: usize, h: Handled, a: ConvActionView, time: Seq<char>) -> (
    AppView,
    Handled,
    Seq<DoView>,
) {
    match a {
        ConvActionView::Back => (
            s.showing(ScreenView::Chats(ListState { selected: i, scroll: 0 })),
            Handled::Consumed,
            match s.chat(i) {
                Some(c) => tail_written(c),
                None => seq![],
            },
        ),
        ConvActionView::Send(words) => {
            let (n, w) = sending(s, i, words, time);
            (n, Handled::Consumed, asking(w))
        },
        ConvActionView::LoadMore => {
            let (n, w) = older(s, i);
            (n, Handled::Consumed, asking(w))
        },
        ConvActionView::Refresh => {
            let (n, w) = newest(s, i, true);
            (
                if w is None {
                    n.noting(Some(n.store.status))
                } else {
                    n
                },
                Handled::Consumed,
                asking(w),
            )
        },
        ConvActionView::OpenMedia(message) => {
            let (n, fx) = downloading(s, i, message);
            (n, Handled::Consumed, fx)
        },
        ConvActionView::OpenLink(url) => (s, Handled::Consumed, seq![DoView::OpenLink(url)]),
        ConvActionView::Copy(words) => (s, Handled::Consumed, seq![DoView::Copy(words)]),
        ConvActionView::Nothing => (s, h, seq![]),
    }
}

/// What a key on a conversation comes to. The cursor may have moved, so the previews follow it.
pub open spec fn conv_keyed(
    s: AppView,
    c: ConvView,
    key: Key,
    glyphs: Seq<char>,
    answer: Answer,
    time: Seq<char>,
) -> (AppView, Handled, Seq<DoView>) {
    let i = c.chat;
    let (to, h, a) = conv::keyed(c, key, s.store.chats[i as int], glyphs, s.lang, answer);
    let n = s.showing(ScreenView::Conversation(to));
    let (m, h2, fx) = conv_acted(n, i, h, a, time);
    (m, h2, window(n, i) + fx)
}

/// What a key on a picture comes to: back leads to the conversation it was opened from, and to the
/// list only where that is gone.
pub open spec fn viewer_keyed(s: AppView, i: usize, h: Handled, back: bool) -> (
    AppView,
    Handled,
    Seq<DoView>,
) {
    if back {
        (
            s.showing(
                if i < s.store.chats.len() {
                    ScreenView::Conversation(conv::opened(i))
                } else {
                    ScreenView::Chats(ListState { selected: 0, scroll: 0 })
                },
            ),
            Handled::Consumed,
            seq![],
        )
    } else {
        (s, h, seq![])
    }
}

/// What the toolkit is asked, and what it answered, for one key.
#[derive(Debug)]
pub struct Press {
    pub key: Key,
    /// What the field or the list in front made of it, where [`App::asks`] says to ask.
    pub answer: Answer,
    /// Whether the picture viewer took it, and whether it asks to go back.
    pub viewer: (Handled, bool),
    /// The height of a row of the list, and of the part of it that shows.
    pub row_h: i32,
    pub viewport_h: i32,
    /// The moment, and how far east of UTC the handset's clock is.
    pub now: i64,
    pub utc_offset: i32,
}

/// The edit an answer is.
pub open spec fn edit_of(a: Answer) -> Option<Edit> {
    match a {
        Answer::Edited(e) => Some(e),
        _ => None,
    }
}

/// What a key has to ask the toolkit.
pub open spec fn key_ask(s: AppView, key: Key, row_h: int, viewport_h: int) -> Ask {
    match s.screen {
        ScreenView::Login => if !(s.login.screen is Waiting) && !login::swallowed(
            s.login.screen,
            key,
        ) {
            Ask::Field
        } else {
            Ask::Nothing
        },
        ScreenView::Chats(state) => chats::list_ask(
            state,
            key,
            s.store.chats.len() as int,
            row_h,
            viewport_h,
        ),
        ScreenView::Conversation(c) => conv::key_ask(c, key),
        ScreenView::Viewer(_) => Ask::Nothing,
    }
}

/// What a key comes to.
pub open spec fn keyed(s: AppView, p: Press, glyphs: Seq<char>) -> (AppView, Handled, Seq<DoView>) {
    match s.screen {
        ScreenView::Login => login_keyed(s, p.key, edit_of(p.answer)),
        ScreenView::Chats(state) => chats_keyed(
            s,
            state,
            p.key,
            p.row_h as int,
            p.viewport_h as int,
            p.answer,
        ),
        ScreenView::Conversation(c) => conv_keyed(
            s,
            c,
            p.key,
            glyphs,
            p.answer,
            pages::clock(p.now as int, p.utc_offset as int),
        ),
        ScreenView::Viewer(i) => viewer_keyed(s, i, p.viewer.0, p.viewer.1),
    }
}

} // verus!
