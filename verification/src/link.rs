//! The connection, as a machine that touches nothing.
//!
//! Whoever owns the socket, the worker and the protocol client feeds in what they did; out comes
//! what to do next. Nothing here waits: a login is a dozen events, and each does a little.

use crate::cache_files::FileWrite;
use crate::session_store;
use crate::session_store::{invalidating, AuthKey, Invalidate, Stored};
use crate::text;
use vstd::bytes::{u32_from_le_bytes, u32_to_le_bytes};
use vstd::prelude::*;
use vstd::string::*;

verus! {

/// The port of every data centre.
pub const DC_PORT: u16 = 443;

/// Where a client with no stored session begins.
pub const DEFAULT_DC: u8 = 2;

/// How often a request is sent again after the server threw it away.
pub const MAX_RESENDS: u8 = 3;

/// How many notes are kept between two drains of the log.
pub const MAX_NOTES: usize = 20;

/// An address.
#[derive(Clone, Copy, Debug, PartialEq, Eq, Structural)]
pub struct Ipv4 {
    pub a: u8,
    pub b: u8,
    pub c: u8,
    pub d: u8,
}

/// The address of a data centre. One that does not exist gets an address too, so that a bad number
/// still connects: zero the default one's, and everything above the table its last.
pub open spec fn address_of(dc: u8) -> Ipv4 {
    if dc == 0 || dc == 2 {
        Ipv4 { a: 149, b: 154, c: 167, d: 51 }
    } else if dc == 1 {
        Ipv4 { a: 149, b: 154, c: 175, d: 53 }
    } else if dc == 3 {
        Ipv4 { a: 149, b: 154, c: 175, d: 100 }
    } else if dc == 4 {
        Ipv4 { a: 149, b: 154, c: 167, d: 91 }
    } else {
        Ipv4 { a: 91, b: 108, c: 56, d: 130 }
    }
}

/// The address of a data centre.
pub fn dc_address(dc: u8) -> (r: Ipv4)
    ensures
        r == address_of(dc),
{
    if dc == 0 || dc == 2 {
        Ipv4 { a: 149, b: 154, c: 167, d: 51 }
    } else if dc == 1 {
        Ipv4 { a: 149, b: 154, c: 175, d: 53 }
    } else if dc == 3 {
        Ipv4 { a: 149, b: 154, c: 175, d: 100 }
    } else if dc == 4 {
        Ipv4 { a: 149, b: 154, c: 167, d: 91 }
    } else {
        Ipv4 { a: 91, b: 108, c: 56, d: 130 }
    }
}

/// What the caller should show or do.
#[derive(Debug)]
pub enum Progress {
    /// Nothing observable changed.
    Nothing,
    /// A step finished; the text is for a status line.
    Step(&'static str),
    /// An auth key exists.
    Authenticated,
    /// A reply to a call.
    Reply { tag: u32, body: Vec<u8> },
    /// The result of work the caller submitted, never the handshake's own.
    WorkDone(Vec<u8>),
    /// The server refused a call.
    Failed { tag: u32, code: i32, text: String },
    /// The connection is gone and everything must be rebuilt.
    Disconnected(&'static str),
}

/// How far a connection has come.
#[derive(Clone, Copy, Debug, PartialEq, Eq, Structural)]
pub enum Phase {
    /// Waiting for the bearer. There is no socket yet: opening one too early kills the process.
    Bearer,
    Connecting,
    Running,
    Dead,
}

/// What a note carries besides its name.
#[derive(Debug)]
pub enum Note {
    /// Nothing; the name is the whole message.
    Flag,
    Num(i64),
    /// Hexadecimal, for bytes that were supposed to parse and did not.
    Text(String),
}

/// What the server told the client outside a handshake.
#[derive(Debug)]
pub enum Update {
    /// A result; the tag is of the call it answers, where the client knows it.
    Result { tag: Option<u32>, body: Vec<u8> },
    RpcError { tag: Option<u32>, code: i32, text: String },
    /// The salt was replaced, and the message that used the old one discarded.
    NewSalt,
    /// The server lost state; nothing was discarded.
    NewSession,
    /// A message was refused; when it was stamped, and why.
    BadMessage { stamped: i64, code: i32 },
    Other,
}

/// What the protocol client wants done.
#[derive(Debug)]
pub enum Step {
    Send(Vec<u8>),
    ModPow { base: Vec<u8>, exp: Vec<u8>, modulus: Vec<u8> },
    Ready,
    Update(Update),
}

/// What a type-language parser tripped over.
#[derive(Clone, Copy, Debug, PartialEq, Eq, Structural)]
pub enum TlError {
    Truncated,
    BadLength,
    UnknownConstructor(u32),
    Unexpected { want: u32, got: u32 },
}

/// Where a handshake failed.
#[derive(Clone, Copy, Debug, PartialEq, Eq, Structural)]
pub enum HandshakeError {
    Tl(TlError),
    Crypto,
    OutOfOrder,
    NonceMismatch,
    NotFactorable,
    NoUsableKey,
    ServerRejected,
    UnknownDhPrime,
    BadDhParams,
    DhGenFailed,
    KeyMismatch,
}

/// Why the protocol client refused what it was fed.
#[derive(Clone, Copy, Debug, PartialEq, Eq, Structural)]
pub enum ClientError {
    Transport,
    Session,
    /// The reply was unreadable; what its parser tripped over, where that is known.
    Rpc(Option<TlError>),
    NotReady,
    Server(i32),
    Handshake(HandshakeError),
}

/// A connection.
#[derive(Debug)]
pub struct Link {
    pub phase: Phase,
    pub dc: u8,
    /// Whether the session was read from disk rather than negotiated.
    pub resumed: bool,
    /// Whether there is a socket.
    pub open: bool,
    /// Steps not carried out yet, the oldest last.
    pub todo: Vec<Step>,
    /// Whether the first call of this connection has gone out.
    pub inited: bool,
    /// The last call as it was sent.
    pub last_call: Option<(Vec<u8>, u32)>,
    /// Whether the clock has been corrected on this connection.
    pub clock_fixed: bool,
    /// How often the last call was sent again.
    pub resends: u8,
    /// Whether the job in flight is the caller's rather than the handshake's.
    pub work_is_caller: bool,
    /// Whether the bearer was brought up anew after a connect that failed.
    pub retried_bearer: bool,
    pub notes: Vec<(&'static str, Note)>,
}

/// The values of a [`Link`].
#[verifier::ext_equal]
pub struct LinkView {
    pub phase: Phase,
    pub dc: u8,
    pub resumed: bool,
    pub open: bool,
    pub todo: Seq<Step>,
    pub inited: bool,
    pub last_call: Option<(Seq<u8>, u32)>,
    pub clock_fixed: bool,
    pub resends: u8,
    pub work_is_caller: bool,
    pub retried_bearer: bool,
    pub notes: Seq<(&'static str, NoteView)>,
}

/// The values of a [`Note`].
pub enum NoteView {
    Flag,
    Num(int),
    Text(Seq<char>),
}

impl View for Note {
    type V = NoteView;

    open spec fn view(&self) -> NoteView {
        match *self {
            Note::Flag => NoteView::Flag,
            Note::Num(n) => NoteView::Num(n as int),
            Note::Text(s) => NoteView::Text(s@),
        }
    }
}

/// The values of some notes, in order.
pub open spec fn note_views(s: Seq<(&'static str, Note)>) -> Seq<(&'static str, NoteView)> {
    Seq::new(s.len(), |i: int| (s[i].0, s[i].1@))
}

impl View for Link {
    type V = LinkView;

    open spec fn view(&self) -> LinkView {
        LinkView {
            phase: self.phase,
            dc: self.dc,
            resumed: self.resumed,
            open: self.open,
            todo: self.todo@,
            inited: self.inited,
            last_call: match self.last_call {
                Some((b, t)) => Some((b@, t)),
                None => None,
            },
            clock_fixed: self.clock_fixed,
            resends: self.resends,
            work_is_caller: self.work_is_caller,
            retried_bearer: self.retried_bearer,
            notes: note_views(self.notes@),
        }
    }
}

/// A link with one more note, unless the log is full: a long session must not grow it for ever.
pub open spec fn noted(s: LinkView, what: &'static str, n: NoteView) -> LinkView {
    if s.notes.len() < MAX_NOTES {
        LinkView { notes: s.notes.push((what, n)), ..s }
    } else {
        s
    }
}

/// A link that is over.
pub open spec fn dead(s: LinkView) -> LinkView {
    LinkView { phase: Phase::Dead, ..s }
}

/// What happened to the bearer while there is no socket.
#[derive(Clone, Copy, Debug, PartialEq, Eq, Structural)]
pub enum BearerEvent {
    Waiting,
    /// It is up, on this access point, and opening a socket on it went so.
    Up { iap: u32, socket: SocketStart },
    Failed(i32),
}

/// How opening a socket and starting its connection went.
#[derive(Clone, Copy, Debug, PartialEq, Eq, Structural)]
pub enum SocketStart {
    OpenFailed(i32),
    ConnectFailed(i32),
    Started,
}

/// What happened to the socket.
#[derive(Debug)]
pub enum SocketEvent {
    /// It is connected, and the transport greeting could be written or not.
    Connected { greeted: bool },
    ReadFailed,
    /// Bytes came in and the client took them.
    Fed { count: usize, steps: Vec<Step> },
    /// Bytes came in and the client refused them.
    Refused { chunk: Vec<u8>, error: ClientError },
    Closed,
    Sent(usize),
    /// The connection failed. Where the bearer had not been tried anew it was, and that started
    /// or gave a code.
    Failed { restart: Option<i32> },
    Other,
}

/// What the caller does next.
#[derive(Debug)]
pub enum Next {
    /// Report this, having thrown the stored session away where a reason is given.
    Report(Progress, Option<Invalidate>),
    /// Hand the handshake its exponentiation, then call [`Link::on_steps`].
    FeedModPow(Vec<u8>),
    /// Call [`Link::drain`] until it is done or reports; where there is nothing, report this.
    Drain(Progress),
}

/// The progress of a link that is over.
pub open spec fn over(why: &'static str) -> Next {
    Next::Report(Progress::Disconnected(why), None)
}

/// Whether two reasons for the server's refusal are about the phone's clock.
pub open spec fn about_the_clock(code: i32) -> bool {
    code == 16 || code == 17
}

/// What an error of the client says on a status line.
pub open spec fn described(e: ClientError) -> &'static str {
    match e {
        ClientError::Transport => "erro de enquadramento",
        ClientError::Session => "não consegui decifrar",
        ClientError::Rpc(_) => "resposta ilegível",
        ClientError::NotReady => "ainda não conectado",
        ClientError::Server(c) => if c == -404 {
            "o servidor esqueceu a chave"
        } else {
            "o servidor recusou"
        },
        ClientError::Handshake(h) => match h {
            HandshakeError::Tl(_) => "handshake: TL ilegível",
            HandshakeError::Crypto => "handshake: falha de cripto",
            HandshakeError::OutOfOrder => "handshake: resposta fora de ordem",
            HandshakeError::NonceMismatch => "handshake: nonce não confere",
            HandshakeError::NotFactorable => "handshake: não fatorei o pq",
            HandshakeError::NoUsableKey => "handshake: nenhuma chave RSA nossa",
            HandshakeError::ServerRejected => "handshake: servidor recusou os dados",
            HandshakeError::UnknownDhPrime => "handshake: primo DH desconhecido",
            HandshakeError::BadDhParams => "handshake: parâmetros DH inválidos",
            HandshakeError::DhGenFailed => "handshake: geração da chave falhou",
            HandshakeError::KeyMismatch => "handshake: as chaves não batem",
        },
    }
}

/// Name what actually failed: each of these has another remedy.
pub fn describe(e: &ClientError) -> (r: &'static str)
    ensures
        r == described(*e),
{
    match e {
        ClientError::Transport => "erro de enquadramento",
        ClientError::Session => "não consegui decifrar",
        ClientError::Rpc(_) => "resposta ilegível",
        ClientError::NotReady => "ainda não conectado",
        ClientError::Server(c) => if *c == -404 {
            "o servidor esqueceu a chave"
        } else {
            "o servidor recusou"
        },
        ClientError::Handshake(h) => match h {
            HandshakeError::Tl(_) => "handshake: TL ilegível",
            HandshakeError::Crypto => "handshake: falha de cripto",
            HandshakeError::OutOfOrder => "handshake: resposta fora de ordem",
            HandshakeError::NonceMismatch => "handshake: nonce não confere",
            HandshakeError::NotFactorable => "handshake: não fatorei o pq",
            HandshakeError::NoUsableKey => "handshake: nenhuma chave RSA nossa",
            HandshakeError::ServerRejected => "handshake: servidor recusou os dados",
            HandshakeError::UnknownDhPrime => "handshake: primo DH desconhecido",
            HandshakeError::BadDhParams => "handshake: parâmetros DH inválidos",
            HandshakeError::DhGenFailed => "handshake: geração da chave falhou",
            HandshakeError::KeyMismatch => "handshake: as chaves não batem",
        },
    }
}

/// The notes an error leaves: the deepest part of the failure, with its number where it has one.
pub open spec fn error_noted(s: LinkView, e: ClientError) -> LinkView {
    let tl = match e {
        ClientError::Handshake(HandshakeError::Tl(t)) => Some(t),
        ClientError::Rpc(t) => t,
        _ => None,
    };
    match tl {
        Some(TlError::Truncated) => noted(s, "tl: truncated", NoteView::Flag),
        Some(TlError::BadLength) => noted(s, "tl: bad length", NoteView::Flag),
        Some(TlError::UnknownConstructor(c)) => noted(
            s,
            "tl: unknown ctor",
            NoteView::Num(c as int),
        ),
        Some(TlError::Unexpected { want, got }) => noted(
            noted(s, "tl: wanted ctor", NoteView::Num(want as int)),
            "tl: got ctor",
            NoteView::Num(got as int),
        ),
        None => match e {
            ClientError::Server(c) => noted(s, "transport error", NoteView::Num(c as int)),
            _ => s,
        },
    }
}

/// The head of some bytes: an unencrypted header and the constructor behind it.
pub open spec fn head_of(b: Seq<u8>) -> Seq<u8> {
    if b.len() < 24 {
        b
    } else {
        b.take(24)
    }
}

/// The steps a client produced, put where the oldest is carried out first.
pub open spec fn queued(s: LinkView, steps: Seq<Step>) -> LinkView {
    LinkView { todo: s.todo + steps.reverse(), ..s }
}

/// How a link takes a bearer event.
pub open spec fn after_bearer(s: LinkView, ev: BearerEvent) -> (LinkView, Progress) {
    match ev {
        BearerEvent::Waiting => (s, Progress::Step("aguardando rede")),
        BearerEvent::Failed(code) => (
            dead(noted(s, "bearer failed", NoteView::Num(code as int))),
            Progress::Disconnected("sem conexão de rede"),
        ),
        BearerEvent::Up { iap, socket } => {
            let up = noted(s, "bearer up, iap", NoteView::Num(iap as int));
            match socket {
                SocketStart::OpenFailed(code) => (
                    dead(noted(up, "socket open failed", NoteView::Num(code as int))),
                    Progress::Disconnected("não consegui abrir o socket"),
                ),
                SocketStart::ConnectFailed(code) => (
                    dead(
                        noted(
                            noted(up, "connecting to dc", NoteView::Num(s.dc as int)),
                            "connect failed",
                            NoteView::Num(code as int),
                        ),
                    ),
                    Progress::Disconnected("não consegui alcançar o servidor"),
                ),
                SocketStart::Started => (
                    LinkView {
                        open: true,
                        phase: Phase::Connecting,
                        ..noted(up, "connecting to dc", NoteView::Num(s.dc as int))
                    },
                    Progress::Step("conectando ao Telegram"),
                ),
            }
        },
    }
}

/// How a link takes a socket event.
pub open spec fn after_socket(s: LinkView, ev: SocketEvent) -> (LinkView, Next) {
    match ev {
        SocketEvent::Connected { greeted } => {
            let up = LinkView { phase: Phase::Running, ..noted(s, "tcp connected", NoteView::Flag) };
            if greeted {
                (up, Next::Drain(Progress::Step("conectado, sem nada a enviar")))
            } else {
                (dead(up), over("could not send the transport greeting"))
            }
        },
        SocketEvent::ReadFailed => (dead(s), over("read failed")),
        SocketEvent::Fed { count, steps } => (
            queued(noted(s, "rx bytes", NoteView::Num(count as i64 as int)), steps@),
            Next::Drain(Progress::Nothing),
        ),
        SocketEvent::Refused { chunk, error } => {
            let got = noted(s, "rx bytes", NoteView::Num(chunk@.len() as i64 as int));
            if error matches ClientError::Server(c) && c == -404 {
                (
                    dead(got),
                    Next::Report(
                        Progress::Disconnected("the server no longer knows this auth key"),
                        Some(Invalidate::UnknownKey),
                    ),
                )
            } else {
                (
                    dead(
                        error_noted(
                            noted(got, "rx head", NoteView::Text(text::hex_of(head_of(chunk@)))),
                            error,
                        ),
                    ),
                    over(described(error)),
                )
            }
        },
        SocketEvent::Closed => (dead(s), over("the server closed the connection")),
        SocketEvent::Sent(n) => (
            noted(s, "tx completed, bytes", NoteView::Num(n as i64 as int)),
            Next::Report(Progress::Nothing, None),
        ),
        SocketEvent::Failed { restart } => if s.retried_bearer {
            (dead(s), over("the connection failed"))
        } else {
            let again = LinkView { retried_bearer: true, open: false, ..s };
            match restart {
                None => (
                    LinkView { phase: Phase::Bearer, ..again },
                    Next::Report(Progress::Step("escolha um ponto de acesso"), None),
                ),
                Some(code) => (
                    dead(noted(again, "bearer retry failed", NoteView::Num(code as int))),
                    over("sem conexão de rede"),
                ),
            }
        },
        SocketEvent::Other => (s, Next::Report(Progress::Nothing, None)),
    }
}

/// How a link takes a finished job: the caller's goes back to the caller, the handshake's into the
/// handshake.
pub open spec fn after_work(s: LinkView, result: Option<Vec<u8>>) -> (LinkView, Next) {
    let len = match result {
        Some(b) => b@.len() as i64 as int,
        None => -1,
    };
    let mine = LinkView { work_is_caller: false, ..s };
    if s.work_is_caller {
        let n = noted(mine, "worker done, caller's, bytes", NoteView::Num(len));
        match result {
            Some(b) => (n, Next::Report(Progress::WorkDone(b), None)),
            None => (dead(n), over("the worker thread failed")),
        }
    } else {
        let n = noted(mine, "worker done, handshake's, bytes", NoteView::Num(len));
        match result {
            Some(b) => (n, Next::FeedModPow(b)),
            None => (dead(n), over("the worker thread failed")),
        }
    }
}

/// What happened to a link.
#[derive(Debug)]
pub enum LinkEvent {
    /// A job finished, or failed.
    Work(Option<Vec<u8>>),
    /// The bearer, while there is no socket.
    Bearer(BearerEvent),
    /// The socket.
    Socket(SocketEvent),
}

/// How a link takes an event. While there is no socket everything but the worker's is one more
/// tick of waiting for the bearer; once there is one, the bearer is not asked any more.
pub open spec fn after_event(s: LinkView, ev: LinkEvent) -> (LinkView, Next) {
    if s.phase == Phase::Dead {
        (s, Next::Report(Progress::Nothing, None))
    } else {
        match ev {
            LinkEvent::Work(result) => after_work(s, result),
            LinkEvent::Bearer(b) => if s.open {
                (s, Next::Report(Progress::Nothing, None))
            } else {
                let (n, p) = after_bearer(s, b);
                (n, Next::Report(p, None))
            },
            LinkEvent::Socket(e) => if s.open {
                after_socket(s, e)
            } else {
                let (n, p) = after_bearer(s, BearerEvent::Waiting);
                (n, Next::Report(p, None))
            },
        }
    }
}

/// What draining the queue of steps asks for.
#[derive(Debug)]
pub enum DrainNext {
    /// Write this, then call [`Link::wrote`].
    Write(Vec<u8>),
    /// Give the worker this job, then call [`Link::submitted`].
    Submit { base: Vec<u8>, exp: Vec<u8>, modulus: Vec<u8> },
    /// Have the client build this request again and write it, then call [`Link::resent`].
    Resend { body: Vec<u8>, tag: u32 },
    /// Have the client correct its clock, then call [`Link::clock_corrected`].
    FixClock,
    /// Report this, having sent what acknowledgements are owed, and thrown the stored session away
    /// where a reason is given.
    Report(Progress, Option<Invalidate>),
    /// Everything is carried out: send what acknowledgements are owed.
    Done,
    /// There is no socket to carry anything out on.
    Idle,
}

/// The values of a [`DrainNext`].
pub enum DrainView {
    Write(Seq<u8>),
    Submit { base: Vec<u8>, exp: Vec<u8>, modulus: Vec<u8> },
    Resend { body: Seq<u8>, tag: u32 },
    FixClock,
    Report(Progress, Option<Invalidate>),
    Done,
    Idle,
}

impl View for DrainNext {
    type V = DrainView;

    open spec fn view(&self) -> DrainView {
        match *self {
            DrainNext::Write(b) => DrainView::Write(b@),
            DrainNext::Submit { base, exp, modulus } => DrainView::Submit { base, exp, modulus },
            DrainNext::Resend { body, tag } => DrainView::Resend { body: body@, tag },
            DrainNext::FixClock => DrainView::FixClock,
            DrainNext::Report(p, why) => DrainView::Report(p, why),
            DrainNext::Done => DrainView::Done,
            DrainNext::Idle => DrainView::Idle,
        }
    }
}

/// How a link takes an update: what it becomes, and what comes of it, if anything does.
pub open spec fn after_update(s: LinkView, u: Update) -> (LinkView, Option<DrainView>) {
    match u {
        Update::Result { tag, body } => {
            let n = LinkView { resends: 0, ..s };
            match tag {
                Some(tag) => (n, Some(DrainView::Report(Progress::Reply { tag, body }, None))),
                None => (n, None),
            }
        },
        Update::RpcError { tag, code, text } => (
            s,
            Some(
                DrainView::Report(
                    Progress::Failed {
                        tag: match tag {
                            Some(t) => t,
                            None => 0,
                        },
                        code,
                        text,
                    },
                    session_store::invalidates(text@),
                ),
            ),
        ),
        Update::NewSalt => {
            let n = noted(s, "server salt replaced", NoteView::Flag);
            match n.last_call {
                None => (n, None),
                Some((body, tag)) => if n.resends >= MAX_RESENDS {
                    (
                        dead(n),
                        Some(
                            DrainView::Report(
                                Progress::Disconnected("o servidor recusou o pedido várias vezes"),
                                None,
                            ),
                        ),
                    )
                } else {
                    (
                        noted(
                            LinkView { resends: (n.resends + 1) as u8, ..n },
                            "resending, tag",
                            NoteView::Num(tag as int),
                        ),
                        Some(DrainView::Resend { body, tag }),
                    )
                },
            }
        },
        Update::NewSession => (s, None),
        Update::BadMessage { stamped, code } => {
            let n = noted(
                noted(s, "bad_msg_notification code", NoteView::Num(code as int)),
                "rejected our msg_id at",
                NoteView::Num(stamped as int),
            );
            if !about_the_clock(code) {
                (
                    n,
                    Some(
                        DrainView::Report(Progress::Step("o servidor recusou uma mensagem"), None),
                    ),
                )
            } else if n.clock_fixed {
                (
                    dead(n),
                    Some(
                        DrainView::Report(
                            Progress::Disconnected("o relógio do telefone está muito errado"),
                            None,
                        ),
                    ),
                )
            } else {
                (LinkView { clock_fixed: true, ..n }, Some(DrainView::FixClock))
            }
        },
        Update::Other => (s, None),
    }
}

/// How draining goes: steps are carried out, oldest first, until one asks for something.
pub open spec fn drained(s: LinkView) -> (LinkView, DrainView)
    decreases s.todo.len(),
{
    if !s.open {
        (s, DrainView::Idle)
    } else if s.todo.len() == 0 {
        (s, DrainView::Done)
    } else {
        let rest = LinkView { todo: s.todo.drop_last(), ..s };
        match s.todo.last() {
            Step::Send(b) => (
                noted(rest, "tx bytes", NoteView::Num(b@.len() as i64 as int)),
                DrainView::Write(b@),
            ),
            Step::ModPow { base, exp, modulus } => (
                LinkView {
                    work_is_caller: false,
                    ..noted(
                        rest,
                        "handshake modpow, modulus bytes",
                        NoteView::Num(modulus@.len() as i64 as int),
                    )
                },
                DrainView::Submit { base, exp, modulus },
            ),
            Step::Ready => (rest, DrainView::Report(Progress::Authenticated, None)),
            Step::Update(u) => {
                let (n, r) = after_update(rest, u);
                match r {
                    Some(d) => (n, d),
                    None => if n.todo.len() < s.todo.len() {
                        drained(n)
                    } else {
                        (n, DrainView::Done)
                    },
                }
            },
        }
    }
}

/// How a clock that was corrected to a time, or could not be, is taken: whether the session is to be
/// written to disk, and what to do then.
pub open spec fn corrected(s: LinkView, clock: Option<i64>) -> (LinkView, bool, DrainView) {
    match clock {
        None => (
            dead(s),
            false,
            DrainView::Report(
                Progress::Disconnected("o relógio do telefone está muito errado"),
                None,
            ),
        ),
        Some(t) => {
            let n = noted(s, "clock corrected to", NoteView::Num(t as int));
            match s.last_call {
                None => (n, true, DrainView::Report(Progress::Step("relogio ajustado"), None)),
                Some((body, tag)) => (
                    noted(n, "retrying after clock fix, tag", NoteView::Num(tag as int)),
                    true,
                    DrainView::Resend { body, tag },
                ),
            }
        },
    }
}

/// How sending a request again went.
#[derive(Clone, Copy, Debug, PartialEq, Eq, Structural)]
pub enum Resent {
    Written,
    WriteFailed,
    /// The client would not build it again.
    NotBuilt,
}

impl Link {
    fn note(&mut self, what: &'static str, n: Note)
        ensures
            final(self)@ == noted(old(self)@, what, n@),
    {
        let ghost before = self@;
        let ghost held = self.notes@;
        if self.notes.len() < MAX_NOTES {
            self.notes.push((what, n));
            assert(note_views(self.notes@) =~= note_views(held).push((what, n@)));
        }
        assert(self@ =~= noted(before, what, n@));
    }

    fn die(&mut self, why: &'static str) -> (r: Progress)
        ensures
            r == Progress::Disconnected(why),
            final(self)@ == dead(old(self)@),
    {
        let ghost before = self@;
        self.phase = Phase::Dead;
        assert(self@ =~= dead(before));
        Progress::Disconnected(why)
    }

    /// Take everything noted since the last call, for the log.
    pub fn take_notes(&mut self) -> (r: Vec<(&'static str, Note)>)
        ensures
            r == old(self).notes,
            final(self)@ == (LinkView { notes: seq![], ..old(self)@ }),
    {
        let ghost before = self@;
        let mut out: Vec<(&'static str, Note)> = Vec::new();
        std::mem::swap(&mut out, &mut self.notes);
        assert(self@ =~= (LinkView { notes: seq![], ..before }));
        out
    }

    fn note_error(&mut self, e: ClientError)
        ensures
            final(self)@ == error_noted(old(self)@, e),
    {
        let tl = match e {
            ClientError::Handshake(HandshakeError::Tl(t)) => Some(t),
            ClientError::Rpc(t) => t,
            _ => None,
        };
        match tl {
            Some(TlError::Truncated) => self.note("tl: truncated", Note::Flag),
            Some(TlError::BadLength) => self.note("tl: bad length", Note::Flag),
            Some(TlError::UnknownConstructor(c)) => self.note(
                "tl: unknown ctor",
                Note::Num(c as i64),
            ),
            Some(TlError::Unexpected { want, got }) => {
                self.note("tl: wanted ctor", Note::Num(want as i64));
                self.note("tl: got ctor", Note::Num(got as i64));
            },
            None => {
                if let ClientError::Server(c) = e {
                    self.note("transport error", Note::Num(c as i64));
                }
            },
        }
    }

    fn queue(&mut self, steps: Vec<Step>)
        ensures
            final(self)@ == queued(old(self)@, steps@),
    {
        let ghost before = self@;
        let ghost all = steps@;
        let mut rest = steps;
        while rest.len() > 0
            invariant
                rest@.len() <= all.len(),
                rest@ =~= all.take(rest@.len() as int),
                self@ =~= (LinkView {
                    todo: before.todo + all.skip(rest@.len() as int).reverse(),
                    ..before
                }),
            decreases rest.len(),
        {
            let ghost k = rest@.len() as int;
            if let Some(step) = rest.pop() {
                self.todo.push(step);
                assert(all.skip(k - 1).reverse() =~= all.skip(k).reverse().push(all[k - 1]));
            }
        }
        assert(all.skip(0) =~= all);
        assert(self@ =~= queued(before, all));
    }

    /// The bearer said something, before there is a socket.
    fn on_bearer_event(&mut self, ev: BearerEvent) -> (r: Progress)
        ensures
            (final(self)@, r) == after_bearer(old(self)@, ev),
    {
        match ev {
            BearerEvent::Waiting => Progress::Step("aguardando rede"),
            BearerEvent::Failed(code) => {
                self.note("bearer failed", Note::Num(code as i64));
                self.die("sem conexão de rede")
            },
            BearerEvent::Up { iap, socket } => {
                self.note("bearer up, iap", Note::Num(iap as i64));
                match socket {
                    SocketStart::OpenFailed(code) => {
                        self.note("socket open failed", Note::Num(code as i64));
                        self.die("não consegui abrir o socket")
                    },
                    SocketStart::ConnectFailed(code) => {
                        let dc: i64 = self.dc as i64;
                        self.note("connecting to dc", Note::Num(dc));
                        self.note("connect failed", Note::Num(code as i64));
                        self.die("não consegui alcançar o servidor")
                    },
                    SocketStart::Started => {
                        let dc: i64 = self.dc as i64;
                        self.note("connecting to dc", Note::Num(dc));
                        let ghost mid = self@;
                        self.open = true;
                        self.phase = Phase::Connecting;
                        assert(self@ =~= (LinkView {
                            open: true,
                            phase: Phase::Connecting,
                            ..mid
                        }));
                        Progress::Step("conectando ao Telegram")
                    },
                }
            },
        }
    }

    /// A job finished, or failed.
    fn on_work(&mut self, result: Option<Vec<u8>>) -> (r: Next)
        ensures
            (final(self)@, r) == after_work(old(self)@, result),
    {
        let ghost before = self@;
        let theirs: bool = self.work_is_caller;
        self.work_is_caller = false;
        assert(self@ =~= (LinkView { work_is_caller: false, ..before }));
        let len: i64 = match &result {
            Some(b) => b.len() as i64,
            None => -1,
        };
        if theirs {
            self.note("worker done, caller's, bytes", Note::Num(len));
        } else {
            self.note("worker done, handshake's, bytes", Note::Num(len));
        }
        match result {
            Some(b) => if theirs {
                Next::Report(Progress::WorkDone(b), None)
            } else {
                Next::FeedModPow(b)
            },
            None => Next::Report(self.die("the worker thread failed"), None),
        }
    }

    /// Something happened to the worker, the bearer or the socket. A link that is over takes no
    /// notice of anything.
    pub fn on_event(&mut self, ev: LinkEvent) -> (r: Next)
        ensures
            (final(self)@, r) == after_event(old(self)@, ev),
    {
        if self.phase == Phase::Dead {
            return Next::Report(Progress::Nothing, None);
        }
        match ev {
            LinkEvent::Work(result) => self.on_work(result),
            LinkEvent::Bearer(b) => if self.open {
                Next::Report(Progress::Nothing, None)
            } else {
                Next::Report(self.on_bearer_event(b), None)
            },
            LinkEvent::Socket(e) => if self.open {
                self.on_socket_event(e)
            } else {
                Next::Report(self.on_bearer_event(BearerEvent::Waiting), None)
            },
        }
    }

    /// The client took the handshake's exponentiation, or refused it.
    pub fn on_steps(&mut self, steps: Option<Vec<Step>>) -> (r: Next)
        ensures
            (match steps {
                Some(s) => final(self)@ == queued(old(self)@, s@) && r == Next::Drain(
                    Progress::Step("key material"),
                ),
                None => final(self)@ == dead(old(self)@) && r == over(
                    "the handshake rejected the exponentiation",
                ),
            }),
    {
        match steps {
            Some(s) => {
                self.queue(s);
                Next::Drain(Progress::Step("key material"))
            },
            None => Next::Report(self.die("the handshake rejected the exponentiation"), None),
        }
    }

    /// The socket said something.
    fn on_socket_event(&mut self, ev: SocketEvent) -> (r: Next)
        ensures
            (final(self)@, r) == after_socket(old(self)@, ev),
    {
        let ghost before = self@;
        match ev {
            SocketEvent::Connected { greeted } => {
                self.note("tcp connected", Note::Flag);
                let ghost mid = self@;
                self.phase = Phase::Running;
                assert(self@ =~= (LinkView { phase: Phase::Running, ..mid }));
                if greeted {
                    Next::Drain(Progress::Step("conectado, sem nada a enviar"))
                } else {
                    Next::Report(self.die("could not send the transport greeting"), None)
                }
            },
            SocketEvent::ReadFailed => Next::Report(self.die("read failed"), None),
            SocketEvent::Fed { count, steps } => {
                self.note("rx bytes", Note::Num(count as i64));
                self.queue(steps);
                Next::Drain(Progress::Nothing)
            },
            SocketEvent::Refused { chunk, error } => {
                self.note("rx bytes", Note::Num(chunk.len() as i64));
                if error == ClientError::Server(-404) {
                    let p = self.die("the server no longer knows this auth key");
                    return Next::Report(p, Some(Invalidate::UnknownKey));
                }
                let head = text::hex(chunk.as_slice(), 24);
                assert(head@ == text::hex_of(head_of(chunk@))) by {
                    assert(chunk@.take(chunk@.len() as int) =~= chunk@);
                }
                self.note("rx head", Note::Text(head));
                self.note_error(error);
                Next::Report(self.die(describe(&error)), None)
            },
            SocketEvent::Closed => Next::Report(
                self.die("the server closed the connection"),
                None,
            ),
            SocketEvent::Sent(n) => {
                self.note("tx completed, bytes", Note::Num(n as i64));
                Next::Report(Progress::Nothing, None)
            },
            SocketEvent::Failed { restart } => {
                if self.retried_bearer {
                    return Next::Report(self.die("the connection failed"), None);
                }
                self.retried_bearer = true;
                self.open = false;
                assert(self@ =~= (LinkView { retried_bearer: true, open: false, ..before }));
                match restart {
                    None => {
                        let ghost mid = self@;
                        self.phase = Phase::Bearer;
                        assert(self@ =~= (LinkView { phase: Phase::Bearer, ..mid }));
                        Next::Report(Progress::Step("escolha um ponto de acesso"), None)
                    },
                    Some(code) => {
                        self.note("bearer retry failed", Note::Num(code as i64));
                        Next::Report(self.die("sem conexão de rede"), None)
                    },
                }
            },
            SocketEvent::Other => Next::Report(Progress::Nothing, None),
        }
    }

    /// Take an update; what comes of it, if anything does.
    fn on_update(&mut self, u: Update) -> (r: Option<DrainNext>)
        ensures
            (match r {
                Some(d) => after_update(old(self)@, u) == (final(self)@, Some(d@)),
                None => after_update(old(self)@, u) == (final(self)@, None::<DrainView>),
            }),
    {
        let ghost before = self@;
        match u {
            Update::Result { tag, body } => {
                self.resends = 0;
                assert(self@ =~= (LinkView { resends: 0, ..before }));
                match tag {
                    Some(tag) => Some(DrainNext::Report(Progress::Reply { tag, body }, None)),
                    None => None,
                }
            },
            Update::RpcError { tag, code, text } => {
                let why = invalidating(text.as_str());
                let tag: u32 = match tag {
                    Some(t) => t,
                    None => 0,
                };
                Some(DrainNext::Report(Progress::Failed { tag, code, text }, why))
            },
            Update::NewSalt => {
                self.note("server salt replaced", Note::Flag);
                self.resend_last()
            },
            Update::NewSession => None,
            Update::BadMessage { stamped, code } => {
                self.note("bad_msg_notification code", Note::Num(code as i64));
                self.note("rejected our msg_id at", Note::Num(stamped));
                if code != 16 && code != 17 {
                    return Some(
                        DrainNext::Report(Progress::Step("o servidor recusou uma mensagem"), None),
                    );
                }
                if self.clock_fixed {
                    let p = self.die("o relógio do telefone está muito errado");
                    return Some(DrainNext::Report(p, None));
                }
                let ghost mid = self@;
                self.clock_fixed = true;
                assert(self@ =~= (LinkView { clock_fixed: true, ..mid }));
                Some(DrainNext::FixClock)
            },
            Update::Other => None,
        }
    }

    /// Send the last request again, after the server threw it away. Bounded, so that a server that
    /// keeps refusing is not an endless resend.
    fn resend_last(&mut self) -> (r: Option<DrainNext>)
        ensures
            (match old(self)@.last_call {
                None => r is None && final(self)@ == old(self)@,
                Some((body, tag)) => if old(self)@.resends >= MAX_RESENDS {
                    r == Some(
                        DrainNext::Report(
                            Progress::Disconnected("o servidor recusou o pedido várias vezes"),
                            None,
                        ),
                    ) && final(self)@ == dead(old(self)@)
                } else {
                    &&& r matches Some(d) && d@ == (DrainView::Resend { body, tag })
                    &&& final(self)@ == noted(
                        LinkView { resends: (old(self)@.resends + 1) as u8, ..old(self)@ },
                        "resending, tag",
                        NoteView::Num(tag as int),
                    )
                },
            }),
    {
        let ghost before = self@;
        let (body, tag): (Vec<u8>, u32) = match &self.last_call {
            Some((b, t)) => (crate::model::copy_bytes(b.as_slice()), *t),
            None => {
                return None;
            },
        };
        if self.resends >= MAX_RESENDS {
            let p = self.die("o servidor recusou o pedido várias vezes");
            return Some(DrainNext::Report(p, None));
        }
        self.resends = self.resends + 1;
        assert(self@ =~= (LinkView { resends: (before.resends + 1) as u8, ..before }));
        self.note("resending, tag", Note::Num(tag as i64));
        Some(DrainNext::Resend { body, tag })
    }

    /// Carry out queued steps until one asks for something.
    ///
    /// Nothing goes out before there is a socket: the queue keeps its contents until then.
    pub fn drain(&mut self) -> (r: DrainNext)
        ensures
            (final(self)@, r@) == drained(old(self)@),
    {
        let ghost start = self@;
        if !self.open {
            return DrainNext::Idle;
        }
        while self.todo.len() > 0
            invariant
                self.open,
                start == old(self)@,
                drained(start) == drained(self@),
            decreases self.todo.len(),
        {
            let ghost before = self@;
            if let Some(step) = self.todo.pop() {
                let ghost rest = LinkView { todo: before.todo.drop_last(), ..before };
                assert(self@ =~= rest);
                assert(step == before.todo.last());
                match step {
                    Step::Send(b) => {
                        self.note("tx bytes", Note::Num(b.len() as i64));
                        return DrainNext::Write(b);
                    },
                    Step::ModPow { base, exp, modulus } => {
                        self.note(
                            "handshake modpow, modulus bytes",
                            Note::Num(modulus.len() as i64),
                        );
                        let ghost mid = self@;
                        self.work_is_caller = false;
                        assert(self@ =~= (LinkView { work_is_caller: false, ..mid }));
                        return DrainNext::Submit { base, exp, modulus };
                    },
                    Step::Ready => {
                        return DrainNext::Report(Progress::Authenticated, None);
                    },
                    Step::Update(u) => {
                        let d = self.on_update(u);
                        match d {
                            Some(d) => {
                                return d;
                            },
                            None => {
                                proof {
                                    lemma_update_keeps(rest, u);
                                }
                                assert(drained(before) == drained(self@));
                            },
                        }
                    },
                }
            }
        }
        DrainNext::Done
    }

    /// A write of [`DrainNext::Write`] went through or not. Nothing to report when it did.
    pub fn wrote(&mut self, ok: bool) -> (r: Option<Progress>)
        ensures
            ok ==> r is None && final(self)@ == old(self)@,
            !ok ==> r == Some(Progress::Disconnected("write failed")) && final(self)@ == dead(
                old(self)@,
            ),
    {
        if ok {
            None
        } else {
            Some(self.die("write failed"))
        }
    }

    /// The worker took the handshake's job or not.
    pub fn submitted(&mut self, ok: bool) -> (r: Progress)
        ensures
            ok ==> r == Progress::Step("computing the key") && final(self)@ == old(self)@,
            !ok ==> r == Progress::Disconnected("the worker thread would not take the job")
                && final(self)@ == dead(old(self)@),
    {
        if ok {
            Progress::Step("computing the key")
        } else {
            self.die("the worker thread would not take the job")
        }
    }

    /// A request was sent again after its salt was replaced, or could not be. Nothing to report
    /// when it was.
    pub fn resent(&mut self, how: Resent) -> (r: Option<Progress>)
        ensures
            (match how {
                Resent::Written => r is None && final(self)@ == old(self)@,
                Resent::WriteFailed => r == Some(Progress::Disconnected("write failed")) && final(self)@ == dead(old(self)@),
                Resent::NotBuilt => r == Some(
                    Progress::Disconnected("não consegui reenviar o pedido"),
                ) && final(self)@ == dead(old(self)@),
            }),
    {
        match how {
            Resent::Written => None,
            Resent::WriteFailed => Some(self.die("write failed")),
            Resent::NotBuilt => Some(self.die("não consegui reenviar o pedido")),
        }
    }

    /// The client corrected its clock to a time, or could not. Whether the session is to be written
    /// to disk, which carries the correction to the next launch, and what to do then: send the last
    /// request again and call [`Link::retried`], where there is one.
    pub fn clock_corrected(&mut self, clock: Option<i64>) -> (r: (bool, DrainNext))
        ensures
            (final(self)@, r.0, r.1@) == corrected(old(self)@, clock),
            r.0 == clock is Some,
            (match clock {
                None => r.1 == DrainNext::Report(
                    Progress::Disconnected("o relógio do telefone está muito errado"),
                    None,
                ) && final(self)@ == dead(old(self)@),
                Some(t) => {
                    let n = noted(old(self)@, "clock corrected to", NoteView::Num(t as int));
                    match n.last_call {
                        None => r.1 == DrainNext::Report(Progress::Step("relogio ajustado"), None)
                            && final(self)@ == n,
                        Some((body, tag)) => r.1@ == (DrainView::Resend { body, tag })
                            && final(self)@ == noted(
                            n,
                            "retrying after clock fix, tag",
                            NoteView::Num(tag as int),
                        ),
                    }
                },
            }),
    {
        match clock {
            None => {
                let p = self.die("o relógio do telefone está muito errado");
                (false, DrainNext::Report(p, None))
            },
            Some(t) => {
                self.note("clock corrected to", Note::Num(t));
                let (body, tag): (Vec<u8>, u32) = match &self.last_call {
                    Some((b, t)) => (crate::model::copy_bytes(b.as_slice()), *t),
                    None => {
                        return (true, DrainNext::Report(Progress::Step("relogio ajustado"), None));
                    },
                };
                self.note("retrying after clock fix, tag", Note::Num(tag as i64));
                (true, DrainNext::Resend { body, tag })
            },
        }
    }

    /// The last request was sent again after the clock was corrected, or could not be.
    pub fn retried(&mut self, how: Resent) -> (r: Progress)
        ensures
            (match how {
                Resent::Written => r == Progress::Step("relogio ajustado") && final(self)@ == old(self)@,
                Resent::WriteFailed => r == Progress::Disconnected("write failed") && final(self)@
                    == dead(old(self)@),
                Resent::NotBuilt => r == Progress::Disconnected(
                    "não consegui reenviar depois de ajustar o relógio",
                ) && final(self)@ == dead(old(self)@),
            }),
    {
        match how {
            Resent::Written => Progress::Step("relogio ajustado"),
            Resent::WriteFailed => self.die("write failed"),
            Resent::NotBuilt => self.die("não consegui reenviar depois de ajustar o relógio"),
        }
    }
}

proof fn lemma_update_keeps(s: LinkView, u: Update)
    ensures
        after_update(s, u).0.todo == s.todo,
        after_update(s, u).0.open == s.open,
{
}

// ---- opening, calling and forgetting --------------------------------------------------------------

/// The number a file of four little-endian bytes holds.
pub open spec fn iap_in(file: Option<Seq<u8>>) -> Option<u32> {
    match file {
        Some(b) => if b.len() == 4 {
            Some(vstd::bytes::spec_u32_from_le_bytes(b))
        } else {
            None
        },
        None => None,
    }
}

/// The access point of the last launch, from what its file held.
pub fn load_iap(file: Option<&[u8]>) -> (r: Option<u32>)
    ensures
        r == iap_in(crate::cache_files::file_opt(file)),
{
    match file {
        Some(b) => if b.len() == 4 {
            Some(u32_from_le_bytes(b))
        } else {
            None
        },
        None => None,
    }
}

/// The file an access point is kept in. Nothing for zero, which is no access point.
pub fn save_iap(iap: u32) -> (r: Option<FileWrite>)
    ensures
        (match r {
            Some(f) => iap != 0 && f.name@ == "iap.bin"@ && f.bytes@
                == vstd::bytes::spec_u32_to_le_bytes(iap),
            None => iap == 0,
        }),
{
    if iap == 0 {
        return None;
    }
    Some(FileWrite { name: "iap.bin".to_owned(), bytes: u32_to_le_bytes(iap) })
}

/// An access point that was saved is the one that loads.
pub proof fn a_saved_access_point_loads(iap: u32)
    ensures
        iap_in(Some(vstd::bytes::spec_u32_to_le_bytes(iap))) == Some(iap),
{
    vstd::bytes::lemma_auto_spec_u32_to_from_le_bytes();
}

/// The access point to ask for: the session's, or else the one of the last launch.
pub open spec fn iap_wanted(saved: Option<Stored>, file: Option<u32>) -> Option<u32> {
    match saved {
        Some(s) => if s.iap != 0 {
            Some(s.iap)
        } else {
            file
        },
        None => file,
    }
}

/// The access point to ask for when nothing is online to join.
pub fn iap_to_start(saved: &Option<Stored>, file: Option<u32>) -> (r: Option<u32>)
    ensures
        r == iap_wanted(*saved, file),
{
    match saved {
        Some(s) => if s.iap != 0 {
            Some(s.iap)
        } else {
            file
        },
        None => file,
    }
}

/// Where a launch connects: where its session lives, or the default.
pub fn start_dc(saved: &Option<Stored>) -> (r: u8)
    ensures
        r == (match *saved {
            Some(s) => s.dc,
            None => DEFAULT_DC,
        }),
{
    match saved {
        Some(s) => s.dc,
        None => DEFAULT_DC,
    }
}

/// Whether a stored session is used on a data centre: a key belongs to one, and against another it
/// costs a round trip to find out it is worth nothing.
pub open spec fn usable_on(saved: Option<Stored>, dc: u8) -> bool {
    saved matches Some(s) && s.dc == dc
}

/// A connection to a data centre that is about to come up.
pub open spec fn begun(dc: u8, resumed: bool, first: Option<Step>) -> LinkView {
    LinkView {
        phase: Phase::Bearer,
        dc,
        resumed,
        open: false,
        todo: if resumed {
            seq![Step::Ready]
        } else {
            match first {
                Some(s) => seq![s],
                None => seq![],
            }
        },
        inited: false,
        last_call: None,
        clock_fixed: false,
        resends: 0,
        work_is_caller: false,
        retried_bearer: false,
        notes: seq![
            ("dc address, low octet", NoteView::Num(address_of(dc).d as int)),
            (
                if resumed {
                    "resumed a stored session"
                } else {
                    "no stored session, handshaking"
                },
                NoteView::Flag,
            ),
        ],
    }
}

/// The session of a key on a data centre.
pub open spec fn kept_session(
    dc: u8,
    auth: AuthKey,
    time_offset: Option<i64>,
    iap: Option<u32>,
) -> Stored {
    Stored {
        dc,
        auth,
        salt: auth.salt,
        time_offset: match time_offset {
            Some(t) => t,
            None => 0,
        },
        iap: match iap {
            Some(i) => i,
            None => 0,
        },
    }
}

/// What is thrown away with a session.
#[derive(Debug)]
pub struct Forget {
    /// Whether everything cached of the account goes too.
    pub wipe_cache: bool,
    /// What the session's file is overwritten with before it is deleted.
    pub session: FileWrite,
}

/// Whether a reason means the account is gone from this handset. An unknown key does not: it is
/// what a migration and a rotated key look like, and both keep the account.
pub open spec fn account_gone(why: Invalidate) -> bool {
    why == Invalidate::LoggedOut || why == Invalidate::Revoked || why == Invalidate::Unregistered
}

/// A link after a call that the client was handed, with what it made of it. Nothing without a
/// session.
pub open spec fn called(
    s: LinkView,
    ready: bool,
    body: Seq<u8>,
    tag: u32,
    step: Option<Step>,
) -> LinkView {
    if !ready {
        s
    } else {
        let n = if s.inited {
            s
        } else {
            noted(
                LinkView { inited: true, ..s },
                "wrapping the first call in initConnection",
                NoteView::Flag,
            )
        };
        LinkView {
            last_call: Some((body, tag)),
            todo: match step {
                Some(t) => n.todo.push(t),
                None => n.todo,
            },
            ..n
        }
    }
}

impl Link {
    /// Whether a stored session is used on a data centre.
    pub fn resumes(saved: &Option<Stored>, dc: u8) -> (r: bool)
        ensures
            r == usable_on(*saved, dc),
    {
        match saved {
            Some(s) => s.dc == dc,
            None => false,
        }
    }

    /// A connection to a data centre that is about to come up.
    ///
    /// `first` is the handshake's first step where one is needed. A resumed client is ready the
    /// moment it is built and says so here, since nothing else will: without that the session
    /// would never be reported.
    pub fn open(dc: u8, resumed: bool, first: Option<Step>) -> (r: Link)
        ensures
            r@ == begun(dc, resumed, first),
    {
        let mut todo: Vec<Step> = Vec::new();
        if resumed {
            todo.push(Step::Ready);
        } else {
            match first {
                Some(s) => todo.push(s),
                None => {},
            }
        }
        let mut notes: Vec<(&'static str, Note)> = Vec::new();
        notes.push(("dc address, low octet", Note::Num(dc_address(dc).d as i64)));
        if resumed {
            notes.push(("resumed a stored session", Note::Flag));
        } else {
            notes.push(("no stored session, handshaking", Note::Flag));
        }
        let r = Link {
            phase: Phase::Bearer,
            dc,
            resumed,
            open: false,
            todo,
            inited: false,
            last_call: None,
            clock_fixed: false,
            resends: 0,
            work_is_caller: false,
            retried_bearer: false,
            notes,
        };
        assert(r@.notes =~= seq![
            ("dc address, low octet", NoteView::Num(address_of(dc).d as int)),
            (
                if resumed {
                    "resumed a stored session"
                } else {
                    "no stored session, handshaking"
                },
                NoteView::Flag,
            ),
        ]);
        assert(r@.todo =~= if resumed {
            seq![Step::Ready]
        } else {
            match first {
                Some(s) => seq![s],
                None => seq![],
            }
        });
        r
    }

    /// Which data centre this link is talking to.
    pub fn dc(&self) -> (r: u8)
        ensures
            r == self.dc,
    {
        self.dc
    }

    /// Whether the session was read from disk.
    pub fn was_resumed(&self) -> (r: bool)
        ensures
            r == self.resumed,
    {
        self.resumed
    }

    /// The session to write to disk, once there is a key.
    pub fn persist(
        &self,
        auth: Option<AuthKey>,
        time_offset: Option<i64>,
        iap: Option<u32>,
    ) -> (r: Option<Stored>)
        ensures
            (match auth {
                Some(a) => r == Some(kept_session(self.dc, a, time_offset, iap)),
                None => r is None,
            }),
    {
        match auth {
            Some(a) => Some(
                Stored {
                    dc: self.dc,
                    auth: a,
                    salt: a.salt,
                    time_offset: match time_offset {
                        Some(t) => t,
                        None => 0,
                    },
                    iap: match iap {
                        Some(i) => i,
                        None => 0,
                    },
                },
            ),
            None => None,
        }
    }

    /// Throw the stored session away, and what is cached of the account when the account is gone.
    pub fn forget(why: Invalidate) -> (r: Forget)
        ensures
            r.wipe_cache == account_gone(why),
            r.session.name@ == "session.bin"@,
            r.session.bytes@.len() == session_store::LEN,
            session_store::blank(r.session.bytes@),
    {
        let wipe: bool = why == Invalidate::LoggedOut || why == Invalidate::Revoked || why
            == Invalidate::Unregistered;
        Forget { wipe_cache: wipe, session: session_store::clear(why) }
    }

    /// Whether the next call goes out in the wrapper the first one on a connection needs.
    pub fn wraps_next(&self) -> (r: bool)
        ensures
            r == !self.inited,
    {
        !self.inited
    }

    /// Make a call. True when it is under way, and then [`Link::drain`] is due; the caller waits
    /// for the session otherwise.
    ///
    /// `ready` is whether the client has a session: without one nothing changes. `body` is what
    /// the client was handed, wrapped already where [`Link::wraps_next`] asked for that, and `step`
    /// what the client made of it, if it took it. The body is kept, so that it can be sent again
    /// without the caller knowing.
    pub fn call(&mut self, ready: bool, body: Vec<u8>, tag: u32, step: Option<Step>) -> (sent: bool)
        ensures
            sent == (ready && step is Some),
            final(self)@ == called(old(self)@, ready, body@, tag, step),
    {
        if !ready {
            return false;
        }
        let ghost before = self@;
        if !self.inited {
            self.inited = true;
            assert(self@ =~= (LinkView { inited: true, ..before }));
            self.note("wrapping the first call in initConnection", Note::Flag);
        }
        let ghost n = self@;
        self.last_call = Some((body, tag));
        match step {
            Some(s) => {
                self.todo.push(s);
                assert(self@ =~= (LinkView {
                    last_call: Some((body@, tag)),
                    todo: n.todo.push(s),
                    ..n
                }));
                true
            },
            None => {
                assert(self@ =~= (LinkView { last_call: Some((body@, tag)), ..n }));
                false
            },
        }
    }

    /// The caller gave the worker a job, which it took or not.
    ///
    /// Only a job that was taken is the caller's: a refusal means work is already in flight, and
    /// that one's result must still go where it belongs.
    pub fn caller_submitted(&mut self, taken: bool)
        ensures
            final(self)@ == (LinkView {
                work_is_caller: old(self).work_is_caller || taken,
                ..old(self)@
            }),
    {
        let ghost before = self@;
        if taken {
            self.work_is_caller = true;
        }
        assert(self@ =~= (LinkView {
            work_is_caller: before.work_is_caller || taken,
            ..before
        }));
    }
}

// ---- credentials ----------------------------------------------------------------------------------

/// The number some digits write, no larger than the type holds. Anything but digits is zero.
pub open spec fn parsed_digits(b: Seq<u8>) -> int
    decreases b.len(),
{
    if b.len() == 0 {
        0
    } else {
        let v = parsed_digits(b.drop_last()) * 10 + (b.last() - 48);
        if v > i32::MAX {
            i32::MAX as int
        } else {
            v
        }
    }
}

/// Whether every byte is a decimal digit.
pub open spec fn all_digits(b: Seq<u8>) -> bool {
    forall|i: int| 0 <= i < b.len() ==> 48 <= #[trigger] b[i] <= 57
}

/// A number out of the build's configuration.
pub fn parse_i32(s: &str) -> (r: i32)
    ensures
        r == (if all_digits(vstd::utf8::encode_utf8(s@)) {
            parsed_digits(vstd::utf8::encode_utf8(s@))
        } else {
            0
        }),
{
    let b = s.as_bytes();
    let mut v: i32 = 0;
    let mut i: usize = 0;
    while i < b.len()
        invariant
            i <= b@.len(),
            b@ == vstd::utf8::encode_utf8(s@),
            v >= 0,
            v == parsed_digits(b@.take(i as int)),
            forall|j: int| 0 <= j < i ==> 48 <= #[trigger] b@[j] <= 57,
        decreases b@.len() - i,
    {
        let d: u8 = b[i];
        if d < 48 || d > 57 {
            return 0;
        }
        assert(b@.take(i + 1).drop_last() =~= b@.take(i as int));
        let wide: i64 = (v as i64) * 10 + ((d - 48) as i64);
        v = if wide > 0x7fff_ffff {
            0x7fff_ffff
        } else {
            wide as i32
        };
        i += 1;
    }
    assert(b@.take(b@.len() as int) =~= b@);
    v
}

/// The application's id, from what the build was configured with. Zero without one.
pub fn api_id(configured: Option<&str>) -> (r: i32)
    ensures
        r == (match configured {
            Some(s) => if all_digits(vstd::utf8::encode_utf8(s@)) {
                parsed_digits(vstd::utf8::encode_utf8(s@))
            } else {
                0
            },
            None => 0,
        }),
{
    match configured {
        Some(s) => parse_i32(s),
        None => 0,
    }
}

/// The application's hash, from what the build was configured with. Empty without one.
pub fn api_hash<'a>(configured: Option<&'a str>) -> (r: &'a str)
    ensures
        r@ == (match configured {
            Some(s) => s@,
            None => ""@,
        }),
{
    match configured {
        Some(s) => s,
        None => "",
    }
}

/// Whether a build with this configuration can log in at all: it has an id and a hash.
pub fn has_credentials(id: Option<&str>, hash: Option<&str>) -> (r: bool)
    ensures
        r == (id matches Some(i) && all_digits(vstd::utf8::encode_utf8(i@)) && parsed_digits(
            vstd::utf8::encode_utf8(i@),
        ) != 0 && (hash matches Some(h) && h@.len() > 0)),
{
    proof {
        reveal_strlit("");
    }
    api_id(id) != 0 && !api_hash(hash).is_empty()
}

// ---- what holds of every link ---------------------------------------------------------------------

/// A request the server keeps throwing away is sent again a bounded number of times, and then the
/// link says so instead of going on for ever.
pub proof fn resending_is_bounded(s: LinkView)
    ensures
        after_update(s, Update::NewSalt).0.resends <= s.resends + 1,
        s.resends >= MAX_RESENDS && s.last_call is Some ==> after_update(s, Update::NewSalt).0.phase
            == Phase::Dead && after_update(s, Update::NewSalt).1 == Some(
            DrainView::Report(
                Progress::Disconnected("o servidor recusou o pedido várias vezes"),
                None,
            ),
        ),
        s.resends < MAX_RESENDS && s.last_call is Some ==> after_update(
            s,
            Update::NewSalt,
        ).0.resends == s.resends + 1 && after_update(s, Update::NewSalt).1 == Some(
            {
                let (body, tag) = s.last_call->0;
                DrainView::Resend { body, tag }
            },
        ),
{
}

/// A clock is corrected once on a connection: a second refusal of the same kind ends it.
pub proof fn the_clock_is_corrected_once(s: LinkView, stamped: i64, code: i32)
    requires
        about_the_clock(code),
    ensures
        ({
            let (n, r) = after_update(s, Update::BadMessage { stamped, code });
            &&& n.clock_fixed || n.phase == Phase::Dead
            &&& (s.clock_fixed ==> n.phase == Phase::Dead && r == Some(
                DrainView::Report(
                    Progress::Disconnected("o relógio do telefone está muito errado"),
                    None,
                ),
            ))
            &&& (!s.clock_fixed ==> n.clock_fixed && r == Some(DrainView::FixClock))
        }),
{
}

/// Steps are carried out in the order the client produced them: the queue is carried out from its
/// end, and they stand there in that order. What waited before them waits on.
pub proof fn steps_keep_their_order(s: LinkView, steps: Seq<Step>, i: int)
    requires
        0 <= i < steps.len(),
    ensures
        ({
            let n = queued(s, steps).todo;
            &&& n.len() == s.todo.len() + steps.len()
            &&& n[n.len() - 1 - i] == steps[i]
            &&& forall|k: int| 0 <= k < s.todo.len() ==> #[trigger] n[k] == s.todo[k]
        }),
{
}

/// The log never grows past its bound, whatever is noted.
pub proof fn notes_are_bounded(s: LinkView, what: &'static str, n: NoteView)
    requires
        s.notes.len() <= MAX_NOTES,
    ensures
        noted(s, what, n).notes.len() <= MAX_NOTES,
        noted(s, what, n).notes.take(s.notes.len() as int) == s.notes,
{
    assert(noted(s, what, n).notes.take(s.notes.len() as int) =~= s.notes);
}

/// The result of a job goes to whoever submitted it, and only once.
pub proof fn a_job_goes_back_to_its_owner(s: LinkView, result: Vec<u8>)
    ensures
        s.work_is_caller ==> after_work(s, Some(result)).1 == Next::Report(
            Progress::WorkDone(result),
            None,
        ),
        !s.work_is_caller ==> after_work(s, Some(result)).1 == Next::FeedModPow(result),
        !after_work(s, Some(result)).0.work_is_caller,
{
}

/// A link that is over stays over and reports nothing more.
pub proof fn a_dead_link_stays_dead(s: LinkView, ev: LinkEvent)
    requires
        s.phase == Phase::Dead,
    ensures
        after_event(s, ev) == (s, Next::Report(Progress::Nothing, None)),
{
}

/// A link that reports a disconnection is over.
pub proof fn a_disconnected_link_is_dead(s: LinkView, ev: LinkEvent, why: &'static str)
    requires
        after_event(s, ev).1 matches Next::Report(p, _) && p == Progress::Disconnected(why),
    ensures
        after_event(s, ev).0.phase == Phase::Dead,
{
}

/// The first call that reaches the client is wrapped, and none after it. One that came too early
/// leaves no trace, so that the wrapper is still owed.
pub proof fn only_the_first_call_is_wrapped(
    s: LinkView,
    ready: bool,
    body: Seq<u8>,
    tag: u32,
    step: Option<Step>,
)
    ensures
        called(s, ready, body, tag, step).inited == (s.inited || ready),
        !ready ==> called(s, ready, body, tag, step) == s,
{
}

/// Nothing is written before there is a socket, and nothing waiting is lost by that.
pub proof fn nothing_goes_out_without_a_socket(s: LinkView)
    requires
        !s.open,
    ensures
        drained(s) == (s, DrainView::Idle),
{
}

} // verus!
