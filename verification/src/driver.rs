//! The piece between the login screens and the wire.
//!
//! A machine from events to effects: whoever owns the links, the timers and the worker carries the
//! effects out and feeds back what came of them. Every request has a tag that says what it was, a
//! request that cannot go yet is held rather than lost, and one that goes unanswered is noticed.

use crate::link;
use crate::link::Progress as LinkProgress;
use crate::login;
use crate::login::{AuthError, Progress as LoginProgress};
use crate::model::PeerRef;
use vstd::prelude::*;
use vstd::string::*;

verus! {

/// How many messages a page of history holds.
pub const HISTORY_PAGE: i32 = 20;

/// How many dialogs a page of the chat list holds.
pub const DIALOG_PAGE: i32 = 20;

/// The tag of a page of dialogs. Above anything the login numbers its own calls with.
pub const TAG_DIALOGS: u32 = 0x1000_0001;

/// A page of one conversation. The low bits of this tag and of those below carry the chat.
pub const TAG_HISTORY: u32 = 0x1001_0000;

/// A message going out.
pub const TAG_SEND: u32 = 0x1002_0000;

/// A chunk of a file.
pub const TAG_FILE: u32 = 0x1003_0000;

/// A message fetched again for a fresh file reference.
pub const TAG_REFRESH: u32 = 0x1004_0000;

/// A token asked of the home link. The low bits carry the data centre it is for.
pub const TAG_EXPORT: u32 = 0x1005_0000;

/// That token handed to the file link.
pub const TAG_IMPORT: u32 = 0x1006_0000;

/// The bits of a tag that carry a number.
pub const TAG_INDEX: u32 = 0xffff;

/// The bits of a tag that say what was asked.
pub const TAG_KIND: u32 = 0xffff_0000;

/// How long an ordinary reply may take.
pub const REPLY_TIMEOUT_MS: i32 = 10_000;

/// How long a file chunk may take, which is far more bytes over the same link.
pub const FILE_TIMEOUT_MS: i32 = 60_000;

/// How long after the start the first connection is made, so that a window is up before it.
pub const CONNECT_DELAY_MS: i32 = 150;

/// How long after a disconnection the next connection is made.
pub const RECONNECT_DELAY_MS: i32 = 2000;

/// How many times a link is rebuilt without anything having come of it.
pub const MAX_RETRIES: u8 = 3;

/// What the application should do about what just happened.
#[derive(Debug, PartialEq, Eq)]
pub enum Outcome {
    Nothing,
    /// A reply to something asked for on the application's behalf.
    Answered(u32, Vec<u8>),
    /// The server refused something asked for on the application's behalf.
    RequestFailed(u32, String),
    /// The status line or a screen changed.
    Redraw,
    /// Signed in.
    Authorized,
    /// The connection is gone, and this is worth showing.
    Disconnected(&'static str),
}

/// Work for the worker, held back while it is busy.
#[derive(Debug, PartialEq, Eq)]
pub enum Queued {
    ModPow { base: Vec<u8>, exp: Vec<u8>, modulus: Vec<u8> },
    Kdf { password: Vec<u8>, salt1: Vec<u8>, salt2: Vec<u8> },
}

/// One chunk of a file.
#[derive(Debug, PartialEq, Eq)]
pub struct FileRequest {
    pub chat: usize,
    pub is_photo: bool,
    pub id: i64,
    pub access_hash: i64,
    pub file_reference: Vec<u8>,
    pub thumb_size: String,
    pub offset: i64,
}

/// What is asked of the server.
#[derive(Debug, PartialEq, Eq)]
pub enum Request {
    Dialogs { limit: i32, offset_date: i32, offset_id: i32, offset_peer: Option<PeerRef> },
    History { peer: PeerRef, offset_id: i32, limit: i32 },
    /// A message going out; its random id is the sender's to draw.
    Send { peer: PeerRef, text: String },
    Refresh { peer: PeerRef, message: i32 },
    File(FileRequest),
    ExportAuthorization { dc: u8 },
    ImportAuthorization { id: i64, bytes: Vec<u8> },
    /// A call of the login machine, already a body.
    Login(Vec<u8>),
}

/// Which connection a request goes out on.
#[derive(Clone, Copy, Debug, PartialEq, Eq, Structural)]
pub enum On {
    /// The one the session lives on.
    Home,
    /// The one to the data centre a file lives on.
    File,
}

/// A request to be sent.
#[derive(Debug, PartialEq, Eq)]
pub struct Call {
    pub on: On,
    pub request: Request,
    pub tag: u32,
}

/// How far a second connection is toward serving a download.
///
/// Its handshake gives it a key and no user: it takes a token exported from the home connection and
/// imported into this one.
#[derive(Clone, Copy, Debug, PartialEq, Eq, Structural)]
pub enum DcState {
    /// The handshake is running.
    Connecting,
    /// The token has been asked for, on the home link.
    AwaitingExport,
    /// The token has been handed over, on this link.
    Importing,
    /// Downloads can go.
    Ready,
}

impl DcState {
    /// Whether a request may be sent on this connection yet.
    pub fn is_usable(self) -> (r: bool)
        ensures
            r == (self == DcState::Ready),
    {
        match self {
            DcState::Ready => true,
            _ => false,
        }
    }
}

/// The connection the session lives on.
#[derive(Clone, Copy, Debug, PartialEq, Eq, Structural)]
pub struct Home {
    pub dc: u8,
    /// Whether the session was read from disk.
    pub resumed: bool,
}

/// A second connection, to the data centre a file lives on.
#[derive(Debug)]
pub struct FileDc {
    pub dc: u8,
    pub state: DcState,
    /// The download that waits for the connection.
    pub waiting: Option<FileRequest>,
}

/// What a timer is for.
#[derive(Clone, Copy, Debug, PartialEq, Eq)]
pub enum Purpose {
    Connect,
    /// The next connection, and what to say when no timer can be had.
    Reconnect(&'static str),
    /// Nobody answered a tag.
    Watch(u32),
}

/// What happened.
#[derive(Debug)]
pub enum Event {
    /// A timer fired.
    Timer(i32),
    /// A timer was started, under a handle, or could not be.
    TimerSet(Purpose, Option<i32>),
    /// The link was started, with so many routes already up, or could not be.
    Started { routes: u32, link: Option<Home> },
    /// The link to a file's data centre was opened for a download, or could not be.
    Opened { dc: u8, request: FileRequest, ok: bool },
    /// The home link was moved to another data centre, or could not be.
    Migrated { dc: u8, ok: bool },
    /// A request was handed to its link, which could send it or not.
    Called { call: Call, sent: bool },
    /// The home link reports.
    Home(LinkProgress),
    /// The file link reports.
    File(LinkProgress),
    /// The worker has nothing to do.
    WorkerFree,
    /// Work was given to the worker, which took it or not, and is busy or not.
    Submitted { work: Queued, accepted: bool, busy: bool },
    /// A reply to a token request was parsed, or could not be.
    Exported(Option<(i64, Vec<u8>)>),
    /// The login machine reports.
    Login(LoginProgress),
}

/// What is to be done.
#[derive(Debug, PartialEq, Eq)]
pub enum Effect {
    /// Start the home link; answered by [`Event::Started`].
    StartLink,
    /// Open a link to a data centre for a download; answered by [`Event::Opened`].
    OpenFileLink(u8, FileRequest),
    /// Move the home link; answered by [`Event::Migrated`].
    Migrate(u8),
    CloseHome,
    CloseFile,
    /// Send a request; answered by [`Event::Called`].
    Call(Call),
    /// Send everything that was held, in order, on the home link.
    Flush(Vec<(Request, u32)>),
    CancelTimer(i32),
    /// Start a timer; answered by [`Event::TimerSet`].
    SetTimer(Purpose, i32),
    /// Write the session to disk.
    Persist,
    /// Give the worker this; answered by [`Event::Submitted`].
    Submit(Queued),
    /// Parse a reply to a token request; answered by [`Event::Exported`].
    ParseExport(Vec<u8>),
    /// Put the phone screen up.
    ShowPhone,
    /// Ask the login machine whether something has to be asked again.
    ResumeLogin,
    /// Ask for a code again, for the number typed before.
    AskCodeAgain,
    LoginReply { tag: u32, body: Vec<u8> },
    LoginError { tag: u32, text: String },
    LoginKdf(Vec<u8>),
    LoginModPow(Vec<u8>),
}

/// The driver.
#[derive(Debug)]
pub struct Driver {
    pub home: Option<Home>,
    pub file_dc: Option<FileDc>,
    /// Whether the download in flight went out on the file link rather than on the home link.
    pub file_req_on_dc: bool,
    pub queued: Option<Queued>,
    /// Requests made before there was a session.
    pub pending_call: Vec<(Request, u32)>,
    /// Whether the key has been written.
    pub persisted: bool,
    pub connect_timer: Option<i32>,
    pub reconnect_timer: Option<i32>,
    /// The timer of the request that waits for an answer, and its tag.
    pub stuck_timer: Option<(i32, u32)>,
    /// How many times the link has been rebuilt since anything came of it.
    pub retries: u8,
    /// What a waiting screen says.
    pub status: &'static str,
}

/// The values of a [`Driver`].
#[verifier::ext_equal]
pub struct DriverView {
    pub home: Option<Home>,
    pub file_dc: Option<FileDc>,
    pub file_req_on_dc: bool,
    pub queued: Option<Queued>,
    pub pending_call: Seq<(Request, u32)>,
    pub persisted: bool,
    pub connect_timer: Option<i32>,
    pub reconnect_timer: Option<i32>,
    pub stuck_timer: Option<(i32, u32)>,
    pub retries: u8,
    pub status: &'static str,
}

impl View for Driver {
    type V = DriverView;

    open spec fn view(&self) -> DriverView {
        DriverView {
            home: self.home,
            file_dc: self.file_dc,
            file_req_on_dc: self.file_req_on_dc,
            queued: self.queued,
            pending_call: self.pending_call@,
            persisted: self.persisted,
            connect_timer: self.connect_timer,
            reconnect_timer: self.reconnect_timer,
            stuck_timer: self.stuck_timer,
            retries: self.retries,
            status: self.status,
        }
    }
}

/// The values of an [`Outcome`].
pub enum OutcomeView {
    Nothing,
    Answered(u32, Vec<u8>),
    RequestFailed(u32, Seq<char>),
    Redraw,
    Authorized,
    Disconnected(&'static str),
}

impl View for Outcome {
    type V = OutcomeView;

    open spec fn view(&self) -> OutcomeView {
        match *self {
            Outcome::Nothing => OutcomeView::Nothing,
            Outcome::Answered(tag, body) => OutcomeView::Answered(tag, body),
            Outcome::RequestFailed(tag, text) => OutcomeView::RequestFailed(tag, text@),
            Outcome::Redraw => OutcomeView::Redraw,
            Outcome::Authorized => OutcomeView::Authorized,
            Outcome::Disconnected(why) => OutcomeView::Disconnected(why),
        }
    }
}

/// The values of an [`Effect`].
pub enum FxView {
    Do(Effect),
    Flush(Seq<(Request, u32)>),
}

impl View for Effect {
    type V = FxView;

    open spec fn view(&self) -> FxView {
        match *self {
            Effect::Flush(v) => FxView::Flush(v@),
            other => FxView::Do(other),
        }
    }
}

/// The values of some effects, in order.
pub open spec fn fx_views(s: Seq<Effect>) -> Seq<FxView> {
    Seq::new(s.len(), |i: int| s[i]@)
}

/// What came of an event: the driver, what the application is told, and what is to be done.
#[verifier::ext_equal]
pub struct Turn {
    pub s: DriverView,
    pub out: OutcomeView,
    pub fx: Seq<FxView>,
}

/// What a tag asks for, without its number.
pub open spec fn kind_of(tag: u32) -> u32 {
    tag & TAG_KIND
}

/// A tag of a kind that carries a number.
pub open spec fn tagged(kind: u32, n: u32) -> u32 {
    kind | (n & TAG_INDEX)
}

/// The low bits of an index into the chat list.
pub open spec fn chat_bits(chat: usize) -> u32 {
    (chat as nat % 0x1_0000_0000) as u32
}

fn low_bits(chat: usize) -> (r: u32)
    ensures
        r == chat_bits(chat),
{
    let wide: u64 = chat as u64;
    (wide % 0x1_0000_0000) as u32
}

/// Whether a tag is one this driver gave out for the application. Everything else is the login's.
pub open spec fn is_ours(tag: u32) -> bool {
    tag == TAG_DIALOGS || kind_of(tag) == TAG_HISTORY || kind_of(tag) == TAG_SEND || kind_of(tag)
        == TAG_FILE || kind_of(tag) == TAG_REFRESH
}

fn ours(tag: u32) -> (r: bool)
    ensures
        r == is_ours(tag),
{
    let kind: u32 = tag & TAG_KIND;
    tag == TAG_DIALOGS || kind == TAG_HISTORY || kind == TAG_SEND || kind == TAG_FILE || kind
        == TAG_REFRESH
}

/// How long a tag's answer may take.
pub open spec fn patience(tag: u32) -> i32 {
    if kind_of(tag) == TAG_FILE {
        FILE_TIMEOUT_MS
    } else {
        REPLY_TIMEOUT_MS
    }
}

/// The timer to cancel before another takes its place.
pub open spec fn cancelling(t: Option<(i32, u32)>) -> Seq<FxView> {
    match t {
        Some((h, _)) => seq![Effect::CancelTimer(h)@],
        None => seq![],
    }
}

/// A driver that no longer waits for an answer to a tag, and what that takes: only the tag's own
/// answer stops the watch.
pub open spec fn unwatched(s: DriverView, tag: u32) -> (DriverView, Seq<FxView>) {
    match s.stuck_timer {
        Some((h, t)) => if t == tag {
            (DriverView { stuck_timer: None, ..s }, seq![Effect::CancelTimer(h)@])
        } else {
            (s, seq![])
        },
        None => (s, seq![]),
    }
}

/// A driver that begins to wait for an answer to a tag, and what that takes.
pub open spec fn watched(s: DriverView, tag: u32) -> (DriverView, Seq<FxView>) {
    (
        DriverView { stuck_timer: None, ..s },
        cancelling(s.stuck_timer) + seq![Effect::SetTimer(Purpose::Watch(tag), patience(tag))@],
    )
}

/// A turn that changes nothing.
pub open spec fn still(s: DriverView) -> Turn {
    Turn { s, out: OutcomeView::Nothing, fx: seq![] }
}

/// The text of a refusal by the network rather than by the server.
pub open spec fn failed_download(s: DriverView, words: Seq<char>, fx: Seq<FxView>) -> Turn {
    Turn { s, out: OutcomeView::RequestFailed(TAG_FILE, words), fx }
}

/// A count of attempts after another one.
pub open spec fn once_more(n: u8) -> u8 {
    if n < u8::MAX {
        (n + 1) as u8
    } else {
        n
    }
}

fn count(n: u8) -> (r: u8)
    ensures
        r == once_more(n),
{
    if n < u8::MAX {
        n + 1
    } else {
        n
    }
}

/// How a timer is taken.
pub open spec fn on_timer(s: DriverView, handle: i32) -> Turn {
    if s.connect_timer == Some(handle) {
        Turn {
            s: DriverView { connect_timer: None, ..s },
            out: OutcomeView::Nothing,
            fx: seq![Effect::StartLink@],
        }
    } else if s.reconnect_timer == Some(handle) {
        Turn {
            s: DriverView { reconnect_timer: None, retries: once_more(s.retries), ..s },
            out: OutcomeView::Nothing,
            fx: seq![Effect::StartLink@],
        }
    } else {
        match s.stuck_timer {
            Some((h, tag)) => if h == handle {
                let n = DriverView { stuck_timer: None, ..s };
                let on_file = s.file_dc is Some && (kind_of(tag) == TAG_IMPORT || (kind_of(tag)
                    == TAG_FILE && s.file_req_on_dc));
                if on_file {
                    let gone = DriverView { file_dc: None, ..n };
                    if s.file_dc->0.waiting is Some {
                        failed_download(gone, "TIMEOUT"@, seq![Effect::CloseFile@])
                    } else {
                        Turn { s: gone, out: OutcomeView::Redraw, fx: seq![Effect::CloseFile@] }
                    }
                } else if s.retries >= MAX_RETRIES {
                    Turn {
                        s: DriverView { home: None, ..n },
                        out: OutcomeView::Disconnected("o servidor não respondeu"),
                        fx: seq![Effect::CloseHome@],
                    }
                } else {
                    Turn {
                        s: DriverView { home: None, retries: once_more(s.retries), ..n },
                        out: OutcomeView::Nothing,
                        fx: seq![Effect::CloseHome@, Effect::StartLink@],
                    }
                }
            } else {
                still(s)
            },
            None => still(s),
        }
    }
}

/// How the start of a timer is taken.
pub open spec fn on_timer_set(s: DriverView, purpose: Purpose, handle: Option<i32>) -> Turn {
    match purpose {
        Purpose::Connect => Turn {
            s: match handle {
                Some(h) => DriverView { connect_timer: Some(h), status: "iniciando", ..s },
                None => s,
            },
            out: OutcomeView::Redraw,
            fx: seq![],
        },
        Purpose::Reconnect(why) => match handle {
            Some(h) => Turn {
                s: DriverView { reconnect_timer: Some(h), status: "reconectando", ..s },
                out: OutcomeView::Redraw,
                fx: seq![],
            },
            None => Turn { s, out: OutcomeView::Disconnected(why), fx: seq![] },
        },
        Purpose::Watch(tag) => still(
            DriverView {
                stuck_timer: match handle {
                    Some(h) => Some((h, tag)),
                    None => None,
                },
                ..s
            },
        ),
    }
}

/// How the start of the home link is taken.
pub open spec fn on_started(s: DriverView, routes: u32, link: Option<Home>) -> Turn {
    match link {
        Some(h) => Turn {
            s: DriverView { home: Some(h), status: "conectando", ..s },
            out: OutcomeView::Redraw,
            fx: seq![],
        },
        None => Turn {
            s: DriverView {
                status: if routes == 0 {
                    "procure o diálogo de conexão"
                } else {
                    "conectando"
                },
                ..s
            },
            out: OutcomeView::Disconnected("sem conexão de rede"),
            fx: seq![],
        },
    }
}

/// A driver that holds a request that could not be sent: on the home link with the others, on the
/// file link as the download that waits.
pub open spec fn holding(s: DriverView, call: Call, sent: bool) -> DriverView {
    if sent {
        s
    } else {
        match call.on {
            On::Home => DriverView {
                pending_call: s.pending_call.push((call.request, call.tag)),
                status: if call.request is Login {
                    "enviando..."
                } else {
                    s.status
                },
                ..s
            },
            On::File => match call.request {
                Request::File(req) => match s.file_dc {
                    Some(f) => DriverView {
                        file_dc: Some(FileDc { waiting: Some(req), ..f }),
                        ..s
                    },
                    None => s,
                },
                _ => s,
            },
        }
    }
}

/// How a request that was handed to its link is taken. One that could not be sent is held: on the
/// home link with the others, on the file link as the download that waits.
pub open spec fn on_called(s: DriverView, call: Call, sent: bool) -> Turn {
    let held = holding(s, call, sent);
    let (n, fx) = watched(held, call.tag);
    Turn { s: n, out: OutcomeView::Nothing, fx }
}

/// How a report of the file link is taken.
pub open spec fn on_file(s: DriverView, p: LinkProgress) -> Turn {
    match s.file_dc {
        None => still(s),
        Some(f) => match p {
            LinkProgress::Nothing => still(s),
            LinkProgress::Step(_) => still(s),
            LinkProgress::WorkDone(_) => still(s),
            LinkProgress::Authenticated => Turn {
                s: DriverView {
                    file_dc: Some(FileDc { state: DcState::AwaitingExport, ..f }),
                    ..s
                },
                out: OutcomeView::Redraw,
                fx: if s.home is Some {
                    seq![
                        Effect::Call(
                            Call {
                                on: On::Home,
                                request: Request::ExportAuthorization { dc: f.dc },
                                tag: tagged(TAG_EXPORT, f.dc as u32),
                            },
                        )@,
                    ]
                } else {
                    seq![]
                },
            },
            LinkProgress::Reply { tag, body } => {
                let (n, fx) = unwatched(s, tag);
                if kind_of(tag) == TAG_IMPORT {
                    let ready = DriverView {
                        file_dc: Some(FileDc { dc: f.dc, state: DcState::Ready, waiting: None }),
                        ..n
                    };
                    match f.waiting {
                        Some(req) => Turn {
                            s: DriverView { file_req_on_dc: true, ..ready },
                            out: OutcomeView::Redraw,
                            fx: fx.push(
                                Effect::Call(
                                    Call {
                                        on: On::File,
                                        request: Request::File(req),
                                        tag: tagged(TAG_FILE, chat_bits(req.chat)),
                                    },
                                )@,
                            ),
                        },
                        None => Turn { s: ready, out: OutcomeView::Redraw, fx },
                    }
                } else if kind_of(tag) == TAG_FILE {
                    Turn { s: n, out: OutcomeView::Answered(tag, body), fx }
                } else {
                    Turn { s: n, out: OutcomeView::Nothing, fx }
                }
            },
            LinkProgress::Failed { tag, code, text } => {
                let (n, fx) = unwatched(s, tag);
                let gone = DriverView { file_dc: None, ..n };
                if kind_of(tag) == TAG_FILE || kind_of(tag) == TAG_IMPORT {
                    failed_download(gone, text@, fx.push(Effect::CloseFile@))
                } else {
                    Turn { s: gone, out: OutcomeView::Redraw, fx: fx.push(Effect::CloseFile@) }
                }
            },
            LinkProgress::Disconnected(why) => {
                let gone = DriverView { file_dc: None, ..s };
                if f.waiting is Some {
                    failed_download(gone, why@, seq![Effect::CloseFile@])
                } else {
                    Turn { s: gone, out: OutcomeView::Redraw, fx: seq![Effect::CloseFile@] }
                }
            },
        },
    }
}

/// The tag of the last request in a batch, zero for none.
pub open spec fn last_tag(p: Seq<(Request, u32)>) -> u32 {
    if p.len() == 0 {
        0
    } else {
        p.last().1
    }
}

/// How a session that is up is taken: the key is written once, a resumed session skips the login,
/// and whatever was asked for before goes now.
pub open spec fn on_ready(s: DriverView, home: Home, authorized: bool) -> Turn {
    let fx = if s.persisted {
        seq![]
    } else {
        seq![Effect::Persist@]
    };
    let n = DriverView { persisted: true, status: "conectado", retries: 0, ..s };
    if home.resumed && !authorized {
        Turn { s: n, out: OutcomeView::Authorized, fx }
    } else {
        let shown = if home.resumed {
            fx
        } else {
            fx.push(Effect::ShowPhone@)
        };
        if s.pending_call.len() > 0 {
            let clear = DriverView { pending_call: seq![], ..n };
            let sent = shown.push(FxView::Flush(s.pending_call));
            if last_tag(s.pending_call) != 0 {
                let (w, wx) = watched(clear, last_tag(s.pending_call));
                Turn { s: w, out: OutcomeView::Redraw, fx: sent + wx }
            } else {
                Turn { s: clear, out: OutcomeView::Redraw, fx: sent }
            }
        } else if !authorized {
            Turn { s: n, out: OutcomeView::Redraw, fx: shown.push(Effect::ResumeLogin@) }
        } else {
            Turn { s: n, out: OutcomeView::Redraw, fx: shown }
        }
    }
}

/// How a report of the home link is taken.
pub open spec fn on_home(s: DriverView, p: LinkProgress, authorized: bool) -> Turn {
    match s.home {
        None => still(s),
        Some(home) => match p {
            LinkProgress::Nothing => still(s),
            LinkProgress::Step(words) => Turn {
                s: DriverView { status: words, ..s },
                out: OutcomeView::Redraw,
                fx: seq![],
            },
            LinkProgress::Authenticated => on_ready(s, home, authorized),
            LinkProgress::Reply { tag, body } => {
                let (n, fx) = unwatched(s, tag);
                if kind_of(tag) == TAG_EXPORT {
                    Turn {
                        s: n,
                        out: OutcomeView::Nothing,
                        fx: fx.push(Effect::ParseExport(body)@),
                    }
                } else if is_ours(tag) {
                    Turn { s: n, out: OutcomeView::Answered(tag, body), fx }
                } else {
                    Turn {
                        s: n,
                        out: OutcomeView::Nothing,
                        fx: fx.push(Effect::LoginReply { tag, body }@),
                    }
                }
            },
            LinkProgress::Failed { tag, code, text } => {
                let (n, fx) = unwatched(s, tag);
                if is_ours(tag) {
                    Turn { s: n, out: OutcomeView::RequestFailed(tag, text@), fx }
                } else {
                    Turn {
                        s: n,
                        out: OutcomeView::Nothing,
                        fx: fx.push(Effect::LoginError { tag, text }@),
                    }
                }
            },
            LinkProgress::WorkDone(bytes) => Turn {
                s,
                out: OutcomeView::Nothing,
                fx: if bytes@.len() == 32 {
                    seq![Effect::LoginKdf(bytes)@]
                } else {
                    seq![Effect::LoginModPow(bytes)@]
                },
            },
            LinkProgress::Disconnected(why) => {
                let n = DriverView { home: None, persisted: false, stuck_timer: None, ..s };
                let fx = seq![Effect::CloseHome@] + cancelling(s.stuck_timer);
                if s.retries < MAX_RETRIES {
                    Turn {
                        s: n,
                        out: OutcomeView::Nothing,
                        fx: fx.push(
                            Effect::SetTimer(Purpose::Reconnect(why), RECONNECT_DELAY_MS)@,
                        ),
                    }
                } else {
                    Turn { s: n, out: OutcomeView::Disconnected(why), fx }
                }
            },
        },
    }
}

/// How a token is taken.
pub open spec fn on_exported(s: DriverView, token: Option<(i64, Vec<u8>)>) -> Turn {
    match token {
        None => failed_download(
            DriverView { file_dc: None, ..s },
            "EXPORT_PARSE_FAILED"@,
            seq![Effect::CloseFile@],
        ),
        Some((id, bytes)) => match s.file_dc {
            None => still(s),
            Some(f) => Turn {
                s: DriverView { file_dc: Some(FileDc { state: DcState::Importing, ..f }), ..s },
                out: OutcomeView::Redraw,
                fx: seq![
                    Effect::Call(
                        Call {
                            on: On::File,
                            request: Request::ImportAuthorization { id, bytes },
                            tag: tagged(TAG_IMPORT, f.dc as u32),
                        },
                    )@,
                ],
            },
        },
    }
}

/// How a report of the login machine is taken.
pub open spec fn on_login(s: DriverView, p: LoginProgress) -> Turn {
    let n = if p is Nothing {
        s
    } else {
        DriverView { retries: 0, ..s }
    };
    match p {
        LoginProgress::Nothing => Turn { s: n, out: OutcomeView::Redraw, fx: seq![] },
        LoginProgress::Call { body, tag } => if s.home is Some {
            Turn {
                s: n,
                out: OutcomeView::Redraw,
                fx: seq![
                    Effect::Call(Call { on: On::Home, request: Request::Login(body), tag })@,
                ],
            }
        } else {
            Turn { s: n, out: OutcomeView::Disconnected("sem conexão"), fx: seq![] }
        },
        LoginProgress::Kdf { password, salt1, salt2 } => Turn {
            s: DriverView { status: "derivando a chave...", ..n },
            out: OutcomeView::Redraw,
            fx: if s.home is Some {
                seq![Effect::Submit(Queued::Kdf { password, salt1, salt2 })@]
            } else {
                seq![]
            },
        },
        LoginProgress::ModPow { base, exp, modulus } => Turn {
            s: DriverView { status: "verificando a senha...", ..n },
            out: OutcomeView::Redraw,
            fx: if s.home is Some {
                seq![Effect::Submit(Queued::ModPow { base, exp, modulus })@]
            } else {
                seq![]
            },
        },
        LoginProgress::Migrate(dc) => {
            let m = DriverView { persisted: false, ..n };
            if s.home is Some {
                Turn { s: m, out: OutcomeView::Nothing, fx: seq![Effect::Migrate(dc)@] }
            } else {
                Turn { s: m, out: OutcomeView::Disconnected("sem conexão"), fx: seq![] }
            }
        },
        LoginProgress::Authorized => Turn { s: n, out: OutcomeView::Authorized, fx: seq![] },
        LoginProgress::Error(_) => Turn { s: n, out: OutcomeView::Redraw, fx: seq![] },
    }
}

/// How any event is taken. `authorized` says whether the login is over.
pub open spec fn turn(s: DriverView, ev: Event, authorized: bool) -> Turn {
    match ev {
        Event::Timer(h) => on_timer(s, h),
        Event::TimerSet(purpose, handle) => on_timer_set(s, purpose, handle),
        Event::Started { routes, link } => on_started(s, routes, link),
        Event::Opened { dc, request, ok } => still(
            if ok {
                DriverView {
                    file_dc: Some(
                        FileDc { dc, state: DcState::Connecting, waiting: Some(request) },
                    ),
                    ..s
                }
            } else {
                s
            },
        ),
        Event::Migrated { dc, ok } => if ok {
            Turn {
                s: DriverView {
                    home: Some(Home { dc, resumed: false }),
                    status: "mudando de servidor",
                    ..s
                },
                out: OutcomeView::Nothing,
                fx: seq![Effect::AskCodeAgain@],
            }
        } else {
            Turn {
                s,
                out: OutcomeView::Disconnected("não consegui mudar de servidor"),
                fx: seq![],
            }
        },
        Event::Called { call, sent } => on_called(s, call, sent),
        Event::Home(p) => on_home(s, p, authorized),
        Event::File(p) => on_file(s, p),
        Event::WorkerFree => match s.queued {
            Some(q) => Turn {
                s: DriverView { queued: None, ..s },
                out: OutcomeView::Nothing,
                fx: if s.home is Some {
                    seq![Effect::Submit(q)@]
                } else {
                    seq![]
                },
            },
            None => still(s),
        },
        Event::Submitted { work, accepted, busy } => still(
            if accepted {
                s
            } else if busy {
                DriverView { queued: Some(work), ..s }
            } else {
                DriverView { status: "não consegui calcular a chave", ..s }
            },
        ),
        Event::Exported(token) => on_exported(s, token),
        Event::Login(p) => on_login(s, p),
    }
}

// ---- the machine ----------------------------------------------------------------------------------

impl DriverView {
    /// Whether the count of rebuilt links is one the machine can reach.
    pub open spec fn sound(self) -> bool {
        self.retries + (if self.reconnect_timer is Some {
            1int
        } else {
            0int
        }) <= MAX_RETRIES + 1
    }
}

fn one(e: Effect) -> (r: Vec<Effect>)
    ensures
        fx_views(r@) == seq![e@],
{
    let mut v: Vec<Effect> = Vec::new();
    v.push(e);
    assert(fx_views(v@) =~= seq![e@]);
    v
}

fn nothing() -> (r: Vec<Effect>)
    ensures
        fx_views(r@) == Seq::<FxView>::empty(),
{
    let v: Vec<Effect> = Vec::new();
    assert(fx_views(v@) =~= Seq::<FxView>::empty());
    v
}

fn also(v: &mut Vec<Effect>, e: Effect)
    ensures
        fx_views(final(v)@) == fx_views(old(v)@).push(e@),
{
    let ghost before = v@;
    v.push(e);
    assert(fx_views(v@) =~= fx_views(before).push(e@));
}

impl Default for Driver {
    fn default() -> (r: Self)
        ensures
            r@ == new_driver(),
    {
        Driver::new()
    }
}

/// A driver that has done nothing.
pub open spec fn new_driver() -> DriverView {
    DriverView {
        home: None,
        file_dc: None,
        file_req_on_dc: false,
        queued: None,
        pending_call: seq![],
        persisted: false,
        connect_timer: None,
        reconnect_timer: None,
        stuck_timer: None,
        retries: 0,
        status: "",
    }
}

impl Driver {
    /// A driver that has done nothing.
    pub fn new() -> (r: Driver)
        ensures
            r@ == new_driver(),
            r@.sound(),
    {
        let r = Driver {
            home: None,
            file_dc: None,
            file_req_on_dc: false,
            queued: None,
            pending_call: Vec::new(),
            persisted: false,
            connect_timer: None,
            reconnect_timer: None,
            stuck_timer: None,
            retries: 0,
            status: "",
        };
        assert(r@ =~= new_driver());
        r
    }

    /// Begin to wait for an answer to a tag, in place of any other.
    fn arm_watchdog(&mut self, tag: u32, fx: &mut Vec<Effect>)
        ensures
            final(self)@ == watched(old(self)@, tag).0,
            fx_views(final(fx)@) == fx_views(old(fx)@) + watched(old(self)@, tag).1,
    {
        let ghost before = self@;
        let ghost first = fx_views(fx@);
        if let Some((h, _)) = self.stuck_timer {
            also(fx, Effect::CancelTimer(h));
        }
        self.stuck_timer = None;
        let ms: i32 = if tag & TAG_KIND == TAG_FILE {
            FILE_TIMEOUT_MS
        } else {
            REPLY_TIMEOUT_MS
        };
        also(fx, Effect::SetTimer(Purpose::Watch(tag), ms));
        assert(self@ =~= watched(before, tag).0);
        assert(fx_views(fx@) =~= first + watched(before, tag).1);
    }

    /// Stop waiting for an answer to a tag that has come.
    ///
    /// Cancelled rather than forgotten: a handle can be given out again, and a stale completion
    /// would then look like the new one's.
    fn clear_watchdog(&mut self, tag: u32) -> (fx: Vec<Effect>)
        ensures
            final(self)@ == unwatched(old(self)@, tag).0,
            fx_views(fx@) == unwatched(old(self)@, tag).1,
    {
        let ghost before = self@;
        if let Some((h, t)) = self.stuck_timer {
            if t == tag {
                self.stuck_timer = None;
                assert(self@ =~= unwatched(before, tag).0);
                return one(Effect::CancelTimer(h));
            }
        }
        nothing()
    }

    fn timer(&mut self, handle: i32) -> (r: (Outcome, Vec<Effect>))
        ensures
            went(on_timer(old(self)@, handle), final(self)@, r),
    {
        let ghost before = self@;
        if let Some(h) = self.connect_timer {
            if h == handle {
                self.connect_timer = None;
                assert(self@ =~= on_timer(before, handle).s);
                return (Outcome::Nothing, one(Effect::StartLink));
            }
        }
        if let Some(h) = self.reconnect_timer {
            if h == handle {
                self.reconnect_timer = None;
                self.retries = count(self.retries);
                assert(self@ =~= on_timer(before, handle).s);
                return (Outcome::Nothing, one(Effect::StartLink));
            }
        }
        let (h, tag): (i32, u32) = match self.stuck_timer {
            Some(x) => x,
            None => {
                return (Outcome::Nothing, nothing());
            },
        };
        if h != handle {
            return (Outcome::Nothing, nothing());
        }
        self.stuck_timer = None;
        let kind: u32 = tag & TAG_KIND;
        let on_file: bool = self.file_dc.is_some() && (kind == TAG_IMPORT || (kind == TAG_FILE
            && self.file_req_on_dc));
        if on_file {
            let gone = self.file_dc.take();
            let waited: bool = match gone {
                Some(f) => f.waiting.is_some(),
                None => false,
            };
            assert(self@ =~= on_timer(before, handle).s);
            if waited {
                return (
                    Outcome::RequestFailed(TAG_FILE, "TIMEOUT".to_owned()),
                    one(Effect::CloseFile),
                );
            }
            return (Outcome::Redraw, one(Effect::CloseFile));
        }
        self.home = None;
        if self.retries >= MAX_RETRIES {
            assert(self@ =~= on_timer(before, handle).s);
            return (Outcome::Disconnected("o servidor não respondeu"), one(Effect::CloseHome));
        }
        self.retries = count(self.retries);
        let mut fx = one(Effect::CloseHome);
        also(&mut fx, Effect::StartLink);
        assert(self@ =~= on_timer(before, handle).s);
        assert(fx_views(fx@) =~= seq![Effect::CloseHome@, Effect::StartLink@]);
        (Outcome::Nothing, fx)
    }

    fn timer_set(&mut self, purpose: Purpose, handle: Option<i32>) -> (r: (Outcome, Vec<Effect>))
        ensures
            went(on_timer_set(old(self)@, purpose, handle), final(self)@, r),
    {
        let ghost before = self@;
        match purpose {
            Purpose::Connect => {
                if let Some(h) = handle {
                    self.connect_timer = Some(h);
                    self.status = "iniciando";
                }
                assert(self@ =~= on_timer_set(before, purpose, handle).s);
                (Outcome::Redraw, nothing())
            },
            Purpose::Reconnect(why) => match handle {
                Some(h) => {
                    self.reconnect_timer = Some(h);
                    self.status = "reconectando";
                    assert(self@ =~= on_timer_set(before, purpose, handle).s);
                    (Outcome::Redraw, nothing())
                },
                None => (Outcome::Disconnected(why), nothing()),
            },
            Purpose::Watch(tag) => {
                self.stuck_timer = match handle {
                    Some(h) => Some((h, tag)),
                    None => None,
                };
                assert(self@ =~= on_timer_set(before, purpose, handle).s);
                (Outcome::Nothing, nothing())
            },
        }
    }

    fn started(&mut self, routes: u32, link: Option<Home>) -> (r: (Outcome, Vec<Effect>))
        ensures
            went(on_started(old(self)@, routes, link), final(self)@, r),
    {
        let ghost before = self@;
        match link {
            Some(h) => {
                self.home = Some(h);
                self.status = "conectando";
                assert(self@ =~= on_started(before, routes, link).s);
                (Outcome::Redraw, nothing())
            },
            None => {
                if routes == 0 {
                    self.status = "procure o diálogo de conexão";
                } else {
                    self.status = "conectando";
                }
                assert(self@ =~= on_started(before, routes, link).s);
                (Outcome::Disconnected("sem conexão de rede"), nothing())
            },
        }
    }

    fn called(&mut self, call: Call, sent: bool) -> (r: (Outcome, Vec<Effect>))
        ensures
            went(on_called(old(self)@, call, sent), final(self)@, r),
    {
        let ghost before = self@;
        let tag: u32 = call.tag;
        let ghost held = holding(before, call, sent);
        if !sent {
            match call.on {
                On::Home => {
                    let login: bool = match &call.request {
                        Request::Login(_) => true,
                        _ => false,
                    };
                    if login {
                        self.status = "enviando...";
                    }
                    self.pending_call.push((call.request, tag));
                },
                On::File => {
                    if let Request::File(req) = call.request {
                        let was = self.file_dc.take();
                        self.file_dc = match was {
                            Some(f) => Some(
                                FileDc { dc: f.dc, state: f.state, waiting: Some(req) },
                            ),
                            None => None,
                        };
                    }
                },
            }
        }
        assert(self@ =~= held);
        let mut fx = nothing();
        self.arm_watchdog(tag, &mut fx);
        assert(fx_views(fx@) =~= watched(held, tag).1);
        (Outcome::Nothing, fx)
    }

    fn file_report(&mut self, p: LinkProgress) -> (r: (Outcome, Vec<Effect>))
        ensures
            went(on_file(old(self)@, p), final(self)@, r),
    {
        let ghost before = self@;
        let dc: u8 = match &self.file_dc {
            Some(f) => f.dc,
            None => {
                return (Outcome::Nothing, nothing());
            },
        };
        match p {
            LinkProgress::Nothing => (Outcome::Nothing, nothing()),
            LinkProgress::Step(_) => (Outcome::Nothing, nothing()),
            LinkProgress::WorkDone(_) => (Outcome::Nothing, nothing()),
            LinkProgress::Authenticated => {
                self.set_file_state(DcState::AwaitingExport);
                assert(self@ =~= on_file(before, p).s);
                if self.home.is_some() {
                    let tag: u32 = TAG_EXPORT | (dc as u32 & TAG_INDEX);
                    return (
                        Outcome::Redraw,
                        one(
                            Effect::Call(
                                Call {
                                    on: On::Home,
                                    request: Request::ExportAuthorization { dc },
                                    tag,
                                },
                            ),
                        ),
                    );
                }
                (Outcome::Redraw, nothing())
            },
            LinkProgress::Reply { tag, body } => {
                let mut fx = self.clear_watchdog(tag);
                let kind: u32 = tag & TAG_KIND;
                if kind == TAG_IMPORT {
                    let was = self.file_dc.take();
                    let waiting = match was {
                        Some(f) => f.waiting,
                        None => None,
                    };
                    self.file_dc = Some(FileDc { dc, state: DcState::Ready, waiting: None });
                    match waiting {
                        Some(req) => {
                            self.file_req_on_dc = true;
                            let t: u32 = TAG_FILE | (low_bits(req.chat) & TAG_INDEX);
                            also(
                                &mut fx,
                                Effect::Call(
                                    Call { on: On::File, request: Request::File(req), tag: t },
                                ),
                            );
                        },
                        None => {},
                    }
                    assert(self@ =~= on_file(before, p).s);
                    return (Outcome::Redraw, fx);
                }
                if kind == TAG_FILE {
                    return (Outcome::Answered(tag, body), fx);
                }
                (Outcome::Nothing, fx)
            },
            LinkProgress::Failed { tag, text, .. } => {
                let mut fx = self.clear_watchdog(tag);
                self.file_dc = None;
                also(&mut fx, Effect::CloseFile);
                assert(self@ =~= on_file(before, p).s);
                let kind: u32 = tag & TAG_KIND;
                if kind == TAG_FILE || kind == TAG_IMPORT {
                    return (Outcome::RequestFailed(TAG_FILE, text), fx);
                }
                (Outcome::Redraw, fx)
            },
            LinkProgress::Disconnected(why) => {
                let was = self.file_dc.take();
                let waited: bool = match was {
                    Some(f) => f.waiting.is_some(),
                    None => false,
                };
                assert(self@ =~= on_file(before, p).s);
                if waited {
                    return (
                        Outcome::RequestFailed(TAG_FILE, why.to_owned()),
                        one(Effect::CloseFile),
                    );
                }
                (Outcome::Redraw, one(Effect::CloseFile))
            },
        }
    }

    fn set_file_state(&mut self, state: DcState)
        ensures
            final(self)@ == (match old(self)@.file_dc {
                Some(f) => DriverView { file_dc: Some(FileDc { state, ..f }), ..old(self)@ },
                None => old(self)@,
            }),
    {
        let ghost before = self@;
        let was = self.file_dc.take();
        self.file_dc = match was {
            Some(f) => Some(FileDc { dc: f.dc, state, waiting: f.waiting }),
            None => None,
        };
        assert(self@ =~= (match before.file_dc {
            Some(f) => DriverView { file_dc: Some(FileDc { state, ..f }), ..before },
            None => before,
        }));
    }

    fn ready(&mut self, home: Home, authorized: bool) -> (r: (Outcome, Vec<Effect>))
        ensures
            went(on_ready(old(self)@, home, authorized), final(self)@, r),
    {
        let ghost before = self@;
        let mut fx = nothing();
        if !self.persisted {
            also(&mut fx, Effect::Persist);
        }
        self.persisted = true;
        self.status = "conectado";
        self.retries = 0;
        let ghost n = DriverView { persisted: true, status: "conectado", retries: 0, ..before };
        assert(self@ =~= n);
        assert(fx_views(fx@) =~= if before.persisted {
            seq![]
        } else {
            seq![Effect::Persist@]
        });
        if home.resumed && !authorized {
            return (Outcome::Authorized, fx);
        }
        if !home.resumed {
            also(&mut fx, Effect::ShowPhone);
        }
        if self.pending_call.len() > 0 {
            let last: u32 = self.pending_call[self.pending_call.len() - 1].1;
            let mut held: Vec<(Request, u32)> = Vec::new();
            std::mem::swap(&mut held, &mut self.pending_call);
            assert(self@ =~= (DriverView { pending_call: seq![], ..n }));
            also(&mut fx, Effect::Flush(held));
            if last != 0 {
                self.arm_watchdog(last, &mut fx);
            }
            return (Outcome::Redraw, fx);
        }
        if !authorized {
            also(&mut fx, Effect::ResumeLogin);
        }
        (Outcome::Redraw, fx)
    }

    fn home_report(&mut self, p: LinkProgress, authorized: bool) -> (r: (Outcome, Vec<Effect>))
        ensures
            went(on_home(old(self)@, p, authorized), final(self)@, r),
    {
        let ghost before = self@;
        let home = match self.home {
            Some(h) => h,
            None => {
                return (Outcome::Nothing, nothing());
            },
        };
        match p {
            LinkProgress::Nothing => (Outcome::Nothing, nothing()),
            LinkProgress::Step(words) => {
                self.status = words;
                assert(self@ =~= on_home(before, p, authorized).s);
                (Outcome::Redraw, nothing())
            },
            LinkProgress::Authenticated => self.ready(home, authorized),
            LinkProgress::Reply { tag, body } => {
                let mut fx = self.clear_watchdog(tag);
                if tag & TAG_KIND == TAG_EXPORT {
                    also(&mut fx, Effect::ParseExport(body));
                    return (Outcome::Nothing, fx);
                }
                if ours(tag) {
                    return (Outcome::Answered(tag, body), fx);
                }
                also(&mut fx, Effect::LoginReply { tag, body });
                (Outcome::Nothing, fx)
            },
            LinkProgress::Failed { tag, text, .. } => {
                let mut fx = self.clear_watchdog(tag);
                if ours(tag) {
                    return (Outcome::RequestFailed(tag, text), fx);
                }
                also(&mut fx, Effect::LoginError { tag, text });
                (Outcome::Nothing, fx)
            },
            LinkProgress::WorkDone(bytes) => {
                if bytes.len() == 32 {
                    (Outcome::Nothing, one(Effect::LoginKdf(bytes)))
                } else {
                    (Outcome::Nothing, one(Effect::LoginModPow(bytes)))
                }
            },
            LinkProgress::Disconnected(why) => {
                self.home = None;
                self.persisted = false;
                let mut fx = one(Effect::CloseHome);
                if let Some((h, _)) = self.stuck_timer {
                    also(&mut fx, Effect::CancelTimer(h));
                }
                self.stuck_timer = None;
                assert(fx_views(fx@) =~= seq![Effect::CloseHome@] + cancelling(before.stuck_timer));
                assert(self@ =~= (DriverView {
                    home: None,
                    persisted: false,
                    stuck_timer: None,
                    ..before
                }));
                if self.retries < MAX_RETRIES {
                    also(&mut fx, Effect::SetTimer(Purpose::Reconnect(why), RECONNECT_DELAY_MS));
                    return (Outcome::Nothing, fx);
                }
                (Outcome::Disconnected(why), fx)
            },
        }
    }

    fn exported(&mut self, token: Option<(i64, Vec<u8>)>) -> (r: (Outcome, Vec<Effect>))
        ensures
            went(on_exported(old(self)@, token), final(self)@, r),
    {
        let ghost before = self@;
        match token {
            None => {
                self.file_dc = None;
                assert(self@ =~= on_exported(before, token).s);
                (
                    Outcome::RequestFailed(TAG_FILE, "EXPORT_PARSE_FAILED".to_owned()),
                    one(Effect::CloseFile),
                )
            },
            Some((id, bytes)) => {
                let dc: u8 = match &self.file_dc {
                    Some(f) => f.dc,
                    None => {
                        return (Outcome::Nothing, nothing());
                    },
                };
                self.set_file_state(DcState::Importing);
                let tag: u32 = TAG_IMPORT | (dc as u32 & TAG_INDEX);
                (
                    Outcome::Redraw,
                    one(
                        Effect::Call(
                            Call {
                                on: On::File,
                                request: Request::ImportAuthorization { id, bytes },
                                tag,
                            },
                        ),
                    ),
                )
            },
        }
    }

    /// Carry out what the login machine asked for.
    pub fn apply(&mut self, p: LoginProgress) -> (r: (Outcome, Vec<Effect>))
        ensures
            went(on_login(old(self)@, p), final(self)@, r),
    {
        let ghost before = self@;
        let nothing_asked: bool = match &p {
            LoginProgress::Nothing => true,
            _ => false,
        };
        if !nothing_asked {
            self.retries = 0;
        }
        let ghost n = if p is Nothing {
            before
        } else {
            DriverView { retries: 0, ..before }
        };
        assert(self@ =~= n);
        match p {
            LoginProgress::Nothing => (Outcome::Redraw, nothing()),
            LoginProgress::Call { body, tag } => {
                if self.home.is_none() {
                    return (Outcome::Disconnected("sem conexão"), nothing());
                }
                (
                    Outcome::Redraw,
                    one(Effect::Call(Call { on: On::Home, request: Request::Login(body), tag })),
                )
            },
            LoginProgress::Kdf { password, salt1, salt2 } => {
                self.status = "derivando a chave...";
                assert(self@ =~= (DriverView { status: "derivando a chave...", ..n }));
                if self.home.is_none() {
                    return (Outcome::Redraw, nothing());
                }
                (Outcome::Redraw, one(Effect::Submit(Queued::Kdf { password, salt1, salt2 })))
            },
            LoginProgress::ModPow { base, exp, modulus } => {
                self.status = "verificando a senha...";
                assert(self@ =~= (DriverView { status: "verificando a senha...", ..n }));
                if self.home.is_none() {
                    return (Outcome::Redraw, nothing());
                }
                (Outcome::Redraw, one(Effect::Submit(Queued::ModPow { base, exp, modulus })))
            },
            LoginProgress::Migrate(dc) => {
                self.persisted = false;
                assert(self@ =~= (DriverView { persisted: false, ..n }));
                if self.home.is_none() {
                    return (Outcome::Disconnected("sem conexão"), nothing());
                }
                (Outcome::Nothing, one(Effect::Migrate(dc)))
            },
            LoginProgress::Authorized => (Outcome::Authorized, nothing()),
            LoginProgress::Error(_) => (Outcome::Redraw, nothing()),
        }
    }

    /// Take an event. `authorized` says whether the login is over.
    pub fn on_event(&mut self, ev: Event, authorized: bool) -> (r: (Outcome, Vec<Effect>))
        ensures
            went(turn(old(self)@, ev, authorized), final(self)@, r),
    {
        let ghost before = self@;
        match ev {
            Event::Timer(h) => self.timer(h),
            Event::TimerSet(purpose, handle) => self.timer_set(purpose, handle),
            Event::Started { routes, link } => self.started(routes, link),
            Event::Opened { dc, request, ok } => {
                if ok {
                    self.file_dc = Some(
                        FileDc { dc, state: DcState::Connecting, waiting: Some(request) },
                    );
                }
                assert(self@ =~= turn(before, ev, authorized).s);
                (Outcome::Nothing, nothing())
            },
            Event::Migrated { dc, ok } => {
                if !ok {
                    return (Outcome::Disconnected("não consegui mudar de servidor"), nothing());
                }
                self.home = Some(Home { dc, resumed: false });
                self.status = "mudando de servidor";
                assert(self@ =~= turn(before, ev, authorized).s);
                (Outcome::Nothing, one(Effect::AskCodeAgain))
            },
            Event::Called { call, sent } => self.called(call, sent),
            Event::Home(p) => self.home_report(p, authorized),
            Event::File(p) => self.file_report(p),
            Event::WorkerFree => {
                let q = self.queued.take();
                match q {
                    Some(q) => {
                        assert(self@ =~= turn(before, ev, authorized).s);
                        if self.home.is_some() {
                            return (Outcome::Nothing, one(Effect::Submit(q)));
                        }
                        (Outcome::Nothing, nothing())
                    },
                    None => {
                        assert(self@ =~= before);
                        (Outcome::Nothing, nothing())
                    },
                }
            },
            Event::Submitted { work, accepted, busy } => {
                if !accepted {
                    if busy {
                        self.queued = Some(work);
                    } else {
                        self.status = "não consegui calcular a chave";
                    }
                }
                assert(self@ =~= turn(before, ev, authorized).s);
                (Outcome::Nothing, nothing())
            },
            Event::Exported(token) => self.exported(token),
            Event::Login(p) => self.apply(p),
        }
    }
}

/// What becomes of a request for a chunk of a file.
#[derive(Clone, Copy, Debug, PartialEq, Eq, Structural)]
pub enum Expected {
    /// It was refused outright.
    Refused,
    /// An answer will come, be it that the request waits for its connection.
    Coming,
    /// It is under way if the home link takes it now.
    IfSent,
    /// It waits for a connection, if that can be opened.
    IfOpened,
}

impl Expected {
    /// Whether an answer is to be expected. `ok` is how the sending or the opening went.
    pub open spec fn owed(self, ok: bool) -> bool {
        match self {
            Expected::Refused => false,
            Expected::Coming => true,
            Expected::IfSent => ok,
            Expected::IfOpened => ok,
        }
    }

    /// Whether an answer is to be expected. `ok` is how the sending or the opening went.
    pub fn under_way(self, ok: bool) -> (r: bool)
        ensures
            r == self.owed(ok),
    {
        match self {
            Expected::Refused => false,
            Expected::Coming => true,
            Expected::IfSent => ok,
            Expected::IfOpened => ok,
        }
    }
}

/// What a request for a chunk of a file comes to: the driver, what becomes of the request, and what
/// is to be done. `busy` says whether the worker has a job.
pub open spec fn chunk(s: DriverView, req: FileRequest, dc: u8, busy: bool) -> (
    DriverView,
    Expected,
    Seq<FxView>,
) {
    let tag = tagged(TAG_FILE, chat_bits(req.chat));
    if dc == 0 || dc == dc_of(s) {
        let n = DriverView { file_req_on_dc: false, ..s };
        if s.home is Some {
            (
                n,
                Expected::IfSent,
                seq![Effect::Call(Call { on: On::Home, request: Request::File(req), tag })@],
            )
        } else {
            (n, Expected::Refused, seq![])
        }
    } else {
        let n = DriverView { file_req_on_dc: true, ..s };
        if s.file_dc is Some && s.file_dc->0.dc == dc {
            if s.file_dc->0.state == DcState::Ready {
                (
                    n,
                    Expected::Coming,
                    seq![Effect::Call(Call { on: On::File, request: Request::File(req), tag })@],
                )
            } else {
                let f = FileDc { waiting: Some(req), ..s.file_dc->0 };
                (DriverView { file_dc: Some(f), ..n }, Expected::Coming, seq![])
            }
        } else {
            let gone = DriverView { file_dc: None, ..n };
            let closing = if s.file_dc is Some {
                seq![Effect::CloseFile@]
            } else {
                seq![]
            };
            if s.home is None || busy {
                (gone, Expected::Refused, closing)
            } else {
                (gone, Expected::IfOpened, closing.push(Effect::OpenFileLink(dc, req)@))
            }
        }
    }
}

/// The data centre the session lives on, or zero before there is one.
pub open spec fn dc_of(s: DriverView) -> u8 {
    match s.home {
        Some(h) => h.dc,
        None => 0,
    }
}

/// The request for a page of the chat list, where there is a link to carry it.
pub open spec fn dialogs_call(
    s: DriverView,
    offset_date: i32,
    offset_id: i32,
    offset_peer: Option<PeerRef>,
) -> Option<Call> {
    if s.home is Some {
        Some(
            Call {
                on: On::Home,
                request: Request::Dialogs {
                    limit: DIALOG_PAGE,
                    offset_date,
                    offset_id,
                    offset_peer,
                },
                tag: TAG_DIALOGS,
            },
        )
    } else {
        None
    }
}

/// The request for a page of one conversation, where there is a link to carry it.
pub open spec fn history_call(
    s: DriverView,
    chat: usize,
    peer: PeerRef,
    offset_id: i32,
) -> Option<Call> {
    if s.home is Some {
        Some(
            Call {
                on: On::Home,
                request: Request::History { peer, offset_id, limit: HISTORY_PAGE },
                tag: tagged(TAG_HISTORY, chat_bits(chat)),
            },
        )
    } else {
        None
    }
}

/// The request that sends a message, where there is a link to carry it.
pub open spec fn send_call(s: DriverView, chat: usize, peer: PeerRef, text: String) -> Option<Call> {
    if s.home is Some {
        Some(
            Call {
                on: On::Home,
                request: Request::Send { peer, text },
                tag: tagged(TAG_SEND, chat_bits(chat)),
            },
        )
    } else {
        None
    }
}

/// The request for a message that is asked for again, where there is a link to carry it.
pub open spec fn refresh_call(
    s: DriverView,
    chat: usize,
    peer: PeerRef,
    message: i32,
) -> Option<Call> {
    if s.home is Some {
        Some(
            Call {
                on: On::Home,
                request: Request::Refresh { peer, message },
                tag: tagged(TAG_REFRESH, chat_bits(chat)),
            },
        )
    } else {
        None
    }
}

impl Driver {
    /// A request on the home link, or nothing when there is none to carry it.
    fn ask(&self, request: Request, tag: u32) -> (r: Option<Call>)
        ensures
            r == (if self@.home is Some {
                Some(Call { on: On::Home, request, tag })
            } else {
                None
            }),
    {
        if self.home.is_some() {
            Some(Call { on: On::Home, request, tag })
        } else {
            None
        }
    }

    /// Ask for a page of the chat list: the first without a peer, else the one that follows it.
    pub fn request_dialogs(
        &self,
        offset_date: i32,
        offset_id: i32,
        offset_peer: Option<PeerRef>,
    ) -> (r: Option<Call>)
        ensures
            r == dialogs_call(self@, offset_date, offset_id, offset_peer),
    {
        self.ask(
            Request::Dialogs { limit: DIALOG_PAGE, offset_date, offset_id, offset_peer },
            TAG_DIALOGS,
        )
    }

    /// Ask for a page of one conversation. The offset is exclusive and counts backwards: zero is
    /// the newest page, the oldest id held is the page above it.
    pub fn request_history(&self, chat: usize, peer: PeerRef, offset_id: i32) -> (r: Option<Call>)
        ensures
            r == history_call(self@, chat, peer, offset_id),
    {
        self.ask(
            Request::History { peer, offset_id, limit: HISTORY_PAGE },
            TAG_HISTORY | (low_bits(chat) & TAG_INDEX),
        )
    }

    /// Send a text message.
    pub fn send_message(&self, chat: usize, peer: PeerRef, text: String) -> (r: Option<Call>)
        ensures
            r == send_call(self@, chat, peer, text),
    {
        self.ask(Request::Send { peer, text }, TAG_SEND | (low_bits(chat) & TAG_INDEX))
    }

    /// Ask for one message again, for a fresh file reference. The peer goes with it: a channel is
    /// asked another way than everything else.
    pub fn request_refresh(&self, chat: usize, peer: PeerRef, message: i32) -> (r: Option<Call>)
        ensures
            r == refresh_call(self@, chat, peer, message),
    {
        self.ask(Request::Refresh { peer, message }, TAG_REFRESH | (low_bits(chat) & TAG_INDEX))
    }

    /// Whether requests can go out. `ready` is what the link says of itself.
    pub fn is_connected(&self, ready: bool) -> (r: bool)
        ensures
            r == (self@.home is Some && ready),
    {
        self.home.is_some() && ready
    }

    /// The data centre the session lives on, or zero before there is one.
    pub fn home_dc(&self) -> (r: u8)
        ensures
            r == dc_of(self@),
    {
        match self.home {
            Some(h) => h.dc,
            None => 0,
        }
    }

    /// Whether a data centre can be served by the connection already held. Zero is what a message
    /// that names none carries.
    pub fn is_home(&self, dc: u8) -> (r: bool)
        ensures
            r == (dc == 0 || dc == dc_of(self@)),
    {
        dc == 0 || dc == self.home_dc()
    }

    /// Ask for one chunk of a file, on the connection to where the file lives. Whether an
    /// answer is to be expected may hang on how that goes.
    pub fn request_file_chunk(&mut self, req: FileRequest, dc: u8, busy: bool) -> (r: (
        Expected,
        Vec<Effect>,
    ))
        ensures
            final(self)@ == chunk(old(self)@, req, dc, busy).0,
            r.0 == chunk(old(self)@, req, dc, busy).1,
            fx_views(r.1@) == chunk(old(self)@, req, dc, busy).2,
    {
        if self.is_home(dc) {
            return self.send_on_home(req);
        }
        self.send_on_file_dc(req, dc, busy)
    }

    fn send_on_home(&mut self, req: FileRequest) -> (r: (Expected, Vec<Effect>))
        ensures
            final(self)@ == chunk(old(self)@, req, 0, false).0,
            r.0 == chunk(old(self)@, req, 0, false).1,
            fx_views(r.1@) == chunk(old(self)@, req, 0, false).2,
    {
        let ghost before = self@;
        self.file_req_on_dc = false;
        assert(self@ =~= (DriverView { file_req_on_dc: false, ..before }));
        if self.home.is_none() {
            return (Expected::Refused, nothing());
        }
        let tag: u32 = TAG_FILE | (low_bits(req.chat) & TAG_INDEX);
        (
            Expected::IfSent,
            one(Effect::Call(Call { on: On::Home, request: Request::File(req), tag })),
        )
    }

    fn send_on_file_dc(&mut self, req: FileRequest, dc: u8, busy: bool) -> (r: (
        Expected,
        Vec<Effect>,
    ))
        requires
            dc != 0,
            dc != dc_of(old(self)@),
        ensures
            final(self)@ == chunk(old(self)@, req, dc, busy).0,
            r.0 == chunk(old(self)@, req, dc, busy).1,
            fx_views(r.1@) == chunk(old(self)@, req, dc, busy).2,
    {
        let ghost before = self@;
        self.file_req_on_dc = true;
        let ghost n = DriverView { file_req_on_dc: true, ..before };
        assert(self@ =~= n);
        let mut fx = nothing();
        let was = self.file_dc.take();
        if let Some(f) = was {
            if f.dc == dc {
                if f.state.is_usable() {
                    self.file_dc = Some(f);
                    assert(self@ =~= n);
                    let tag: u32 = TAG_FILE | (low_bits(req.chat) & TAG_INDEX);
                    return (
                        Expected::Coming,
                        one(Effect::Call(Call { on: On::File, request: Request::File(req), tag })),
                    );
                }
                self.file_dc = Some(FileDc { dc: f.dc, state: f.state, waiting: Some(req) });
                assert(self@ =~= chunk(before, req, dc, busy).0);
                return (Expected::Coming, fx);
            }
            also(&mut fx, Effect::CloseFile);
        }
        assert(self@ =~= (DriverView { file_dc: None, ..n }));
        if self.home.is_none() || busy {
            return (Expected::Refused, fx);
        }
        also(&mut fx, Effect::OpenFileLink(dc, req));
        (Expected::IfOpened, fx)
    }

    /// Connect once the window is up, rather than now: a failure must have somewhere to show.
    pub fn arm_connect(&self) -> (r: Vec<Effect>)
        ensures
            fx_views(r@) == seq![Effect::SetTimer(Purpose::Connect, CONNECT_DELAY_MS)@],
    {
        one(Effect::SetTimer(Purpose::Connect, CONNECT_DELAY_MS))
    }

    /// Open the connection.
    pub fn connect(&self) -> (r: Vec<Effect>)
        ensures
            fx_views(r@) == seq![Effect::StartLink@],
    {
        one(Effect::StartLink)
    }
}

/// The name of an error of the login, for a log.
pub open spec fn label_of(e: AuthError) -> &'static str {
    match e {
        AuthError::PhoneNumberInvalid => "PHONE_NUMBER_INVALID",
        AuthError::PhoneCodeInvalid => "PHONE_CODE_INVALID",
        AuthError::PhoneCodeExpired => "PHONE_CODE_EXPIRED",
        AuthError::PasswordInvalid => "PASSWORD_HASH_INVALID",
        AuthError::FloodWait(_) => "FLOOD_WAIT",
        AuthError::SignUpRequired => "SIGNUP_REQUIRED",
        AuthError::ApiIdInvalid => "API_ID_INVALID",
        AuthError::Other(_) => "other",
    }
}

/// The name of an error of the login, for a log.
pub fn error_label(e: &AuthError) -> (r: &'static str)
    ensures
        r == label_of(*e),
{
    match e {
        AuthError::PhoneNumberInvalid => "PHONE_NUMBER_INVALID",
        AuthError::PhoneCodeInvalid => "PHONE_CODE_INVALID",
        AuthError::PhoneCodeExpired => "PHONE_CODE_EXPIRED",
        AuthError::PasswordInvalid => "PASSWORD_HASH_INVALID",
        AuthError::FloodWait(_) => "FLOOD_WAIT",
        AuthError::SignUpRequired => "SIGNUP_REQUIRED",
        AuthError::ApiIdInvalid => "API_ID_INVALID",
        AuthError::Other(_) => "other",
    }
}

/// Whether a turn went the way it should: the driver, the outcome and the effects are its.
pub open spec fn went(t: Turn, after: DriverView, r: (Outcome, Vec<Effect>)) -> bool {
    after == t.s && r.0@ == t.out && fx_views(r.1@) == t.fx
}

// ---- laws -----------------------------------------------------------------------------------------

/// A tag gives back what was asked and the number it was asked for, as far as its bits reach.
pub proof fn a_tag_gives_back_its_parts(kind: u32, n: u32)
    requires
        kind & TAG_INDEX == 0,
    ensures
        kind_of(tagged(kind, n)) == kind,
        tagged(kind, n) & TAG_INDEX == n & TAG_INDEX,
        n <= TAG_INDEX ==> tagged(kind, n) & TAG_INDEX == n,
{
    let t = tagged(kind, n);
    assert(kind & 0xffffu32 == 0 ==> (kind | (n & 0xffffu32)) & 0xffff_0000u32 == kind && (kind | (n
        & 0xffffu32)) & 0xffffu32 == n & 0xffffu32) by (bit_vector);
    assert(n <= 0xffffu32 ==> n & 0xffffu32 == n) by (bit_vector);
}

/// The numbers the login counts its own calls with are never taken for the application's.
pub proof fn a_login_tag_is_never_ours(tag: u32)
    requires
        tag < TAG_DIALOGS,
    ensures
        !is_ours(tag),
        kind_of(tag) != TAG_EXPORT,
        kind_of(tag) != TAG_IMPORT,
{
    assert(tag < 0x1000_0001u32 ==> (tag & 0xffff_0000u32) != 0x1001_0000u32 && (tag
        & 0xffff_0000u32) != 0x1002_0000u32 && (tag & 0xffff_0000u32) != 0x1003_0000u32 && (tag
        & 0xffff_0000u32) != 0x1004_0000u32 && (tag & 0xffff_0000u32) != 0x1005_0000u32 && (tag
        & 0xffff_0000u32) != 0x1006_0000u32) by (bit_vector);
}

/// The application only ever gets answers to what it asked for: a login's reply or a token that
/// signs a connection in never reaches it.
pub proof fn only_answers_reach_the_application(s: DriverView, ev: Event, authorized: bool)
    ensures
        turn(s, ev, authorized).out matches OutcomeView::Answered(tag, _) ==> is_ours(tag),
        turn(s, ev, authorized).out matches OutcomeView::RequestFailed(tag, _) ==> is_ours(tag),
{
    assert(kind_of(TAG_FILE) == TAG_FILE) by {
        assert(0x1003_0000u32 & 0xffff_0000u32 == 0x1003_0000u32) by (bit_vector);
    }
}

/// A request's watch is stopped by its own answer and by no other.
pub proof fn only_its_own_answer_stops_a_watch(
    s: DriverView,
    handle: i32,
    waits: u32,
    ev: Event,
    authorized: bool,
)
    requires
        s.stuck_timer == Some((handle, waits)),
        match ev {
            Event::Home(LinkProgress::Reply { tag, .. }) => tag != waits,
            Event::Home(LinkProgress::Failed { tag, .. }) => tag != waits,
            Event::File(LinkProgress::Reply { tag, .. }) => tag != waits,
            Event::File(LinkProgress::Failed { tag, .. }) => tag != waits,
            _ => false,
        },
    ensures
        turn(s, ev, authorized).s.stuck_timer == s.stuck_timer,
{
}

/// The count of rebuilt links stays within its bound, as long as a timer for the next connection is
/// only reported when one was asked for, which takes a count below the limit.
#[verifier::spinoff_prover]
pub proof fn attempts_are_bounded(s: DriverView, ev: Event, authorized: bool)
    requires
        s.sound(),
        ev matches Event::TimerSet(Purpose::Reconnect(_), Some(_)) ==> s.retries < MAX_RETRIES,
    ensures
        turn(s, ev, authorized).s.sound(),
        turn(s, ev, authorized).s.retries <= MAX_RETRIES + 1,
        forall|i: int|
            0 <= i < turn(s, ev, authorized).fx.len() ==> (#[trigger] turn(s, ev, authorized).fx[i] matches FxView::Do(
                Effect::SetTimer(Purpose::Reconnect(_), _),
            ) ==> s.retries < MAX_RETRIES),
{
    match ev {
        Event::Timer(h) => {
            assert(turn(s, ev, authorized) == on_timer(s, h));
        },
        Event::TimerSet(purpose, handle) => {
            assert(turn(s, ev, authorized) == on_timer_set(s, purpose, handle));
        },
        Event::Called { call, sent } => {
            assert(turn(s, ev, authorized) == on_called(s, call, sent));
        },
        Event::Home(p) => {
            assert(turn(s, ev, authorized) == on_home(s, p, authorized));
            match p {
                LinkProgress::Authenticated => {},
                LinkProgress::Reply { tag, body } => {},
                LinkProgress::Failed { tag, code, text } => {},
                _ => {},
            }
        },
        Event::File(p) => {
            assert(turn(s, ev, authorized) == on_file(s, p));
            match p {
                LinkProgress::Authenticated => {},
                LinkProgress::Reply { tag, body } => {},
                LinkProgress::Failed { tag, code, text } => {},
                _ => {},
            }
        },
        Event::Login(p) => {
            assert(turn(s, ev, authorized) == on_login(s, p));
        },
        Event::Exported(token) => {
            assert(turn(s, ev, authorized) == on_exported(s, token));
        },
        _ => {},
    }
}

/// A request that cannot be sent is held behind those already held, and nothing else a link reports
/// drops one.
pub proof fn a_held_request_is_never_lost(s: DriverView, call: Call, authorized: bool)
    requires
        call.on == On::Home,
    ensures
        turn(s, Event::Called { call, sent: false }, authorized).s.pending_call
            == s.pending_call.push((call.request, call.tag)),
        turn(s, Event::Called { call, sent: true }, authorized).s.pending_call == s.pending_call,
{
}

/// What was held goes out in the order it was asked for, as soon as there is a session, or stays
/// held.
pub proof fn held_requests_go_out_in_order(s: DriverView, ev: Event, authorized: bool)
    ensures
        ({
            let t = turn(s, ev, authorized);
            t.s.pending_call == s.pending_call || (ev matches Event::Called { call, sent } && !sent
                && t.s.pending_call == s.pending_call.push((call.request, call.tag))) || (
            t.s.pending_call == Seq::<(Request, u32)>::empty() && t.fx.contains(
                FxView::Flush(s.pending_call),
            ))
        }),
{
    let t = turn(s, ev, authorized);
    if let Event::Home(LinkProgress::Authenticated) = ev {
        if s.home is Some {
            let home = s.home->0;
            if !(home.resumed && !authorized) && s.pending_call.len() > 0 {
                let saved: Seq<FxView> = if s.persisted {
                    seq![]
                } else {
                    seq![Effect::Persist@]
                };
                let shown = if home.resumed {
                    saved
                } else {
                    saved.push(Effect::ShowPhone@)
                };
                let k = shown.len() as int;
                assert(t.fx[k] == FxView::Flush(s.pending_call));
            }
        }
    }
}

/// A second connection serves downloads only once its token has been imported.
#[verifier::spinoff_prover]
pub proof fn only_an_imported_token_makes_a_link_ready(s: DriverView, ev: Event, authorized: bool)
    requires
        turn(s, ev, authorized).s.file_dc is Some,
        turn(s, ev, authorized).s.file_dc->0.state == DcState::Ready,
    ensures
        (s.file_dc is Some && s.file_dc->0.state == DcState::Ready) || (ev matches Event::File(
            LinkProgress::Reply { tag, .. },
        ) && kind_of(tag) == TAG_IMPORT),
{
    match ev {
        Event::Timer(h) => {
            assert(turn(s, ev, authorized) == on_timer(s, h));
        },
        Event::TimerSet(purpose, handle) => {
            assert(turn(s, ev, authorized) == on_timer_set(s, purpose, handle));
        },
        Event::Called { call, sent } => {
            assert(turn(s, ev, authorized) == on_called(s, call, sent));
        },
        Event::Home(p) => {
            assert(turn(s, ev, authorized) == on_home(s, p, authorized));
            match p {
                LinkProgress::Authenticated => {},
                LinkProgress::Reply { tag, body } => {},
                LinkProgress::Failed { tag, code, text } => {},
                _ => {},
            }
        },
        Event::File(p) => {
            assert(turn(s, ev, authorized) == on_file(s, p));
            match p {
                LinkProgress::Authenticated => {},
                LinkProgress::Reply { tag, body } => {},
                LinkProgress::Failed { tag, code, text } => {},
                _ => {},
            }
        },
        Event::Login(p) => {
            assert(turn(s, ev, authorized) == on_login(s, p));
        },
        Event::Exported(token) => {
            assert(turn(s, ev, authorized) == on_exported(s, token));
        },
        _ => {},
    }
}

/// Nothing is sent on a connection that is not there.
#[verifier::spinoff_prover]
pub proof fn nothing_is_sent_without_a_link(s: DriverView, ev: Event, authorized: bool, i: int)
    requires
        0 <= i < turn(s, ev, authorized).fx.len(),
    ensures
        match turn(s, ev, authorized).fx[i] {
            FxView::Do(Effect::Call(call)) => match call.on {
                On::Home => turn(s, ev, authorized).s.home is Some,
                On::File => turn(s, ev, authorized).s.file_dc is Some,
            },
            FxView::Flush(_) => turn(s, ev, authorized).s.home is Some,
            _ => true,
        },
{
    match ev {
        Event::Timer(h) => {
            assert(turn(s, ev, authorized) == on_timer(s, h));
        },
        Event::TimerSet(purpose, handle) => {
            assert(turn(s, ev, authorized) == on_timer_set(s, purpose, handle));
        },
        Event::Called { call, sent } => {
            assert(turn(s, ev, authorized) == on_called(s, call, sent));
        },
        Event::Home(p) => {
            assert(turn(s, ev, authorized) == on_home(s, p, authorized));
            match p {
                LinkProgress::Authenticated => {},
                LinkProgress::Reply { tag, body } => {},
                LinkProgress::Failed { tag, code, text } => {},
                _ => {},
            }
        },
        Event::File(p) => {
            assert(turn(s, ev, authorized) == on_file(s, p));
            match p {
                LinkProgress::Authenticated => {},
                LinkProgress::Reply { tag, body } => {},
                LinkProgress::Failed { tag, code, text } => {},
                _ => {},
            }
        },
        Event::Login(p) => {
            assert(turn(s, ev, authorized) == on_login(s, p));
        },
        Event::Exported(token) => {
            assert(turn(s, ev, authorized) == on_exported(s, token));
        },
        _ => {},
    }
}

/// A download that goes silent on its own connection costs that connection, never the session or an
/// attempt.
pub proof fn a_silent_download_keeps_the_session(
    s: DriverView,
    handle: i32,
    tag: u32,
    authorized: bool,
)
    requires
        s.stuck_timer == Some((handle, tag)),
        s.connect_timer != Some(handle),
        s.reconnect_timer != Some(handle),
        s.file_dc is Some,
        kind_of(tag) == TAG_IMPORT || (kind_of(tag) == TAG_FILE && s.file_req_on_dc),
    ensures
        turn(s, Event::Timer(handle), authorized).s == (DriverView {
            file_dc: None,
            stuck_timer: None,
            ..s
        }),
        turn(s, Event::Timer(handle), authorized).fx == seq![Effect::CloseFile@],
        turn(s, Event::Timer(handle), authorized).out == (if s.file_dc->0.waiting is Some {
            OutcomeView::RequestFailed(TAG_FILE, "TIMEOUT"@)
        } else {
            OutcomeView::Redraw
        }),
{
}

/// Without a session no download is begun, and no half-built connection is left behind unless one
/// to the very place was already being built.
pub proof fn no_download_begins_without_a_session(
    s: DriverView,
    req: FileRequest,
    dc: u8,
    busy: bool,
)
    requires
        s.home is None,
        !(s.file_dc is Some && s.file_dc->0.dc == dc && dc != 0),
    ensures
        chunk(s, req, dc, busy).1 == Expected::Refused,
        dc != 0 ==> chunk(s, req, dc, busy).0.file_dc is None,
{
}

} // verus!
