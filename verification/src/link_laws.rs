//! What a connection is for: what it is handed goes out, what comes in is reported, and a session
//! that was made is found again.

use crate::link;
use crate::link::{
    BearerEvent, ClientError, DrainView, LinkEvent, LinkView, Next, NoteView, Phase, Progress,
    SocketEvent, SocketStart, Step, Update, DEFAULT_DC, MAX_RESENDS,
};
use crate::session_store;
use crate::session_store::{AuthKey, Invalidate};
use crate::text;
use vstd::prelude::*;
use vstd::string::*;

verus! {

// ---- carrying out steps ---------------------------------------------------------------------------

/// A link after a step has the same data centre, session, socket and last call.
pub open spec fn same_connection(a: LinkView, b: LinkView) -> bool {
    &&& a.dc == b.dc
    &&& a.resumed == b.resumed
    &&& a.open == b.open
    &&& a.inited == b.inited
    &&& a.last_call == b.last_call
    &&& a.retried_bearer == b.retried_bearer
}

/// Bytes the client wants sent are written as they are.
pub proof fn what_is_to_be_sent_is_written(s: LinkView, bytes: Vec<u8>)
    requires
        s.open,
        s.todo.len() > 0,
        s.todo.last() == Step::Send(bytes),
    ensures
        link::drained(s).1 == DrainView::Write(bytes@),
        link::drained(s).0.todo == s.todo.drop_last(),
        link::drained(s).0.phase == s.phase,
        link::drained(s).0.work_is_caller == s.work_is_caller,
        same_connection(link::drained(s).0, s),
{
}

/// An exponentiation the handshake asks for is the one the worker is given: the base, the exponent
/// and the modulus are each the step's own. Its result is the handshake's, and goes back into it.
pub proof fn an_exponentiation_is_submitted_as_it_is(
    s: LinkView,
    base: Vec<u8>,
    exp: Vec<u8>,
    modulus: Vec<u8>,
    result: Vec<u8>,
)
    requires
        s.open,
        s.phase != Phase::Dead,
        s.todo.len() > 0,
        s.todo.last() == (Step::ModPow { base, exp, modulus }),
    ensures
        ({
            let (n, d) = link::drained(s);
            &&& d matches DrainView::Submit { base: b, exp: e, modulus: m }
            &&& b == base
            &&& e == exp
            &&& m == modulus
            &&& n.todo == s.todo.drop_last()
            &&& same_connection(n, s)
            &&& link::after_event(n, LinkEvent::Work(Some(result))).1 == Next::FeedModPow(result)
        }),
{
}

/// A session that is ready is reported, and nothing is thrown away for it.
pub proof fn a_ready_session_is_reported(s: LinkView)
    requires
        s.open,
        s.todo.len() > 0,
        s.todo.last() == Step::Ready,
    ensures
        link::drained(s).1 == DrainView::Report(Progress::Authenticated, None),
        link::drained(s).0 == (LinkView { todo: s.todo.drop_last(), ..s }),
{
}

/// An answer reaches whoever asked: the tag is the call's and the body is what the server sent. The
/// call it answers may be thrown away by the server as often again as the next one.
pub proof fn an_answer_reaches_its_caller(s: LinkView, tag: u32, body: Vec<u8>)
    requires
        s.open,
        s.todo.len() > 0,
        s.todo.last() == Step::Update(Update::Result { tag: Some(tag), body }),
    ensures
        ({
            let (n, d) = link::drained(s);
            &&& d == DrainView::Report(Progress::Reply { tag, body }, None)
            &&& n.todo == s.todo.drop_last()
            &&& n.resends == 0
            &&& same_connection(n, s)
        }),
{
}

/// Whether a text begins with another.
pub open spec fn begins(s: Seq<char>, p: Seq<char>) -> bool {
    p.len() <= s.len() && forall|i: int| 0 <= i < p.len() ==> s[i] == #[trigger] p[i]
}

proof fn lemma_begins(s: Seq<char>, p: Seq<char>)
    ensures
        text::has_prefix(s, p) == begins(s, p),
{
    if begins(s, p) {
        assert(s.take(p.len() as int) =~= p);
    } else if p.len() <= s.len() && s.take(p.len() as int) == p {
        assert forall|i: int| 0 <= i < p.len() implies s[i] == #[trigger] p[i] by {
            assert(s.take(p.len() as int)[i] == s[i]);
        }
    }
}

/// A stored session is thrown away for the errors that say its key or its account is gone, and for
/// no other.
pub proof fn only_a_dead_key_is_thrown_away(error: Seq<char>)
    ensures
        (session_store::invalidates(error) == Some(Invalidate::Unregistered)) == (begins(
            error,
            "AUTH_KEY_UNREGISTERED"@,
        ) || begins(error, "AUTH_KEY_INVALID"@)),
        (session_store::invalidates(error) == Some(Invalidate::Revoked)) == (begins(
            error,
            "SESSION_REVOKED"@,
        ) || begins(error, "SESSION_EXPIRED"@) || begins(error, "USER_DEACTIVATED"@)),
        session_store::invalidates(error) != Some(Invalidate::UnknownKey),
        session_store::invalidates(error) != Some(Invalidate::LoggedOut),
{
    lemma_begins(error, "AUTH_KEY_UNREGISTERED"@);
    lemma_begins(error, "AUTH_KEY_INVALID"@);
    lemma_begins(error, "SESSION_REVOKED"@);
    lemma_begins(error, "SESSION_EXPIRED"@);
    lemma_begins(error, "USER_DEACTIVATED"@);
    reveal_strlit("AUTH_KEY_UNREGISTERED");
    reveal_strlit("AUTH_KEY_INVALID");
    reveal_strlit("SESSION_REVOKED");
    reveal_strlit("SESSION_EXPIRED");
    reveal_strlit("USER_DEACTIVATED");
    let a = "AUTH_KEY_UNREGISTERED"@;
    let b = "AUTH_KEY_INVALID"@;
    assert(begins(error, a) ==> error[0] == a[0]);
    assert(begins(error, b) ==> error[0] == b[0]);
    assert(begins(error, "SESSION_REVOKED"@) ==> error[0] == "SESSION_REVOKED"@[0]);
    assert(begins(error, "SESSION_EXPIRED"@) ==> error[0] == "SESSION_EXPIRED"@[0]);
    assert(begins(error, "USER_DEACTIVATED"@) ==> error[0] == "USER_DEACTIVATED"@[0]);
}

/// A refused call reaches whoever made it, with the server's code and words, and the link goes on. A
/// session is thrown away for it only where the words say that the key or the account is gone.
pub proof fn a_refusal_reaches_its_caller(
    s: LinkView,
    tag: Option<u32>,
    code: i32,
    words: String,
)
    requires
        s.open,
        s.todo.len() > 0,
        s.todo.last() == Step::Update(Update::RpcError { tag, code, text: words }),
    ensures
        ({
            let (n, d) = link::drained(s);
            let gone = begins(words@, "AUTH_KEY_UNREGISTERED"@) || begins(
                words@,
                "AUTH_KEY_INVALID"@,
            ) || begins(words@, "SESSION_REVOKED"@) || begins(words@, "SESSION_EXPIRED"@) || begins(
                words@,
                "USER_DEACTIVATED"@,
            );
            &&& d matches DrainView::Report(p, why)
            &&& p matches Progress::Failed { tag: t, code: c, text: w }
            &&& tag is Some ==> t == tag->0
            &&& tag is None ==> t == 0
            &&& c == code
            &&& w == words
            &&& why is Some == gone
            &&& n == (LinkView { todo: s.todo.drop_last(), ..s })
        }),
{
    only_a_dead_key_is_thrown_away(words@);
}

/// What the server says that asks for nothing is passed over: the link goes on with the next step.
pub proof fn what_asks_for_nothing_is_passed_over(s: LinkView, u: Update)
    requires
        s.open,
        s.todo.len() > 0,
        s.todo.last() == Step::Update(u),
        u is NewSession || u is Other || (u is Result && u->Result_tag is None) || (u is NewSalt
            && s.last_call is None),
    ensures
        ({
            let (n, d) = link::drained(s);
            &&& s.todo.len() == 1 ==> d == DrainView::Done
            &&& s.todo.len() > 1 ==> (s.todo[s.todo.len() - 2] matches Step::Send(b) ==> d
                == DrainView::Write(b@))
            &&& s.todo.len() > 1 ==> (s.todo[s.todo.len() - 2] is Ready ==> d == DrainView::Report(
                Progress::Authenticated,
                None,
            ))
            &&& s.todo.len() > 1 ==> (s.todo[s.todo.len() - 2] matches Step::ModPow {
                base,
                exp,
                modulus,
            } ==> d == (DrainView::Submit { base, exp, modulus }))
        }),
{
    reveal_with_fuel(link::drained, 3);
    let rest = LinkView { todo: s.todo.drop_last(), ..s };
    let n = link::after_update(rest, u).0;
    assert(n.todo == rest.todo && n.open);
    if s.todo.len() > 1 {
        assert(rest.todo.last() == s.todo[s.todo.len() - 2]);
    }
}

/// A queue that is carried out is done.
pub proof fn an_empty_queue_is_done(s: LinkView)
    requires
        s.open,
        s.todo.len() == 0,
    ensures
        link::drained(s) == (s, DrainView::Done),
{
}

/// Draining never touches which connection this is, and never makes a step up.
pub proof fn draining_only_takes_steps(s: LinkView)
    ensures
        same_connection(link::drained(s).0, s),
        link::drained(s).0.todo.len() <= s.todo.len(),
        link::drained(s).0.todo == s.todo.take(link::drained(s).0.todo.len() as int),
    decreases s.todo.len(),
{
    assert(s.todo.take(s.todo.len() as int) =~= s.todo);
    if s.open && s.todo.len() > 0 {
        let rest = LinkView { todo: s.todo.drop_last(), ..s };
        assert(rest.todo =~= s.todo.take(s.todo.len() - 1));
        if let Step::Update(u) = s.todo.last() {
            let (n, r) = link::after_update(rest, u);
            assert(n.todo == rest.todo);
            if r is None {
                draining_only_takes_steps(n);
                let k = link::drained(n).0.todo.len() as int;
                assert(rest.todo.take(k) =~= s.todo.take(k));
            }
        }
    }
}

// ---- calls ----------------------------------------------------------------------------------------

/// A call that the client took goes out next, and where the server then throws it away, that very
/// call is sent again, under its own tag.
pub proof fn a_call_is_sent_and_sent_again(
    s: LinkView,
    body: Seq<u8>,
    tag: u32,
    packed: Vec<u8>,
)
    requires
        s.open,
        s.resends < MAX_RESENDS,
    ensures
        ({
            let n = link::called(s, true, body, tag, Some(Step::Send(packed)));
            let (o, d) = link::drained(n);
            let (p, e) = link::after_update(o, Update::NewSalt);
            &&& d == DrainView::Write(packed@)
            &&& o.todo == s.todo
            &&& o.last_call == Some((body, tag))
            &&& e == Some(DrainView::Resend { body, tag })
            &&& p.last_call == Some((body, tag))
        }),
{
    let n = link::called(s, true, body, tag, Some(Step::Send(packed)));
    assert(n.todo.drop_last() =~= s.todo);
}

/// A call before there is a session leaves no trace, and one the client would not take asks for
/// nothing to be sent.
pub proof fn a_call_too_early_sends_nothing(
    s: LinkView,
    body: Seq<u8>,
    tag: u32,
    step: Option<Step>,
)
    ensures
        link::called(s, false, body, tag, step) == s,
        link::called(s, true, body, tag, None).todo == s.todo,
{
}

// ---- coming up and going down ---------------------------------------------------------------------

/// A connection comes up in two steps, and what waited for it is carried out then: a session that
/// was read from disk is reported ready, and without one the handshake's first step goes out.
pub proof fn a_connection_comes_up(dc: u8, resumed: bool, first: Option<Step>, iap: u32)
    ensures
        ({
            let s = link::begun(dc, resumed, first);
            let up = LinkEvent::Bearer(BearerEvent::Up { iap, socket: SocketStart::Started });
            let (c, p) = link::after_event(s, up);
            let on = LinkEvent::Socket(SocketEvent::Connected { greeted: true });
            let (r, q) = link::after_event(c, on);
            &&& s.dc == dc && c.dc == dc && r.dc == dc
            &&& s.resumed == resumed && r.resumed == resumed
            &&& s.phase == Phase::Bearer && !s.open
            &&& c.phase == Phase::Connecting && c.open
            &&& p matches Next::Report(x, why) && x is Step && why is None
            &&& r.phase == Phase::Running && r.open
            &&& q is Drain
            &&& link::drained(s).1 == DrainView::Idle
            &&& resumed ==> link::drained(r).1 == DrainView::Report(Progress::Authenticated, None)
            &&& !resumed && first is None ==> link::drained(r).1 == DrainView::Done
            &&& !resumed ==> (first matches Some(Step::Send(b)) ==> link::drained(r).1
                == DrainView::Write(b@))
            &&& !r.inited && r.last_call is None && !r.clock_fixed && r.resends == 0
            &&& !r.work_is_caller && !r.retried_bearer
        }),
{
    let s = link::begun(dc, resumed, first);
    let up = LinkEvent::Bearer(BearerEvent::Up { iap, socket: SocketStart::Started });
    let c = link::after_event(s, up).0;
    let on = LinkEvent::Socket(SocketEvent::Connected { greeted: true });
    let r = link::after_event(c, on).0;
    assert(r.todo == s.todo);
}

/// Whether a link is over and says why, throwing nothing away.
pub open spec fn went_down(r: (LinkView, Next)) -> bool {
    &&& r.0.phase == Phase::Dead
    &&& r.1 matches Next::Report(p, why)
    &&& p is Disconnected
    &&& why is None
}

/// Whatever fails of a bearer, a socket or the worker ends the link, which says so. Only a failed
/// connection is forgiven, once: the bearer is tried anew, and what waits goes on waiting.
pub proof fn a_failure_ends_the_link(
    s: LinkView,
    code: i32,
    iap: u32,
    restart: Option<i32>,
)
    requires
        s.phase != Phase::Dead,
    ensures
        !s.open ==> {
            &&& went_down(link::after_event(s, LinkEvent::Bearer(BearerEvent::Failed(code))))
            &&& went_down(
                link::after_event(
                    s,
                    LinkEvent::Bearer(
                        BearerEvent::Up { iap, socket: SocketStart::OpenFailed(code) },
                    ),
                ),
            )
            &&& went_down(
                link::after_event(
                    s,
                    LinkEvent::Bearer(
                        BearerEvent::Up { iap, socket: SocketStart::ConnectFailed(code) },
                    ),
                ),
            )
        },
        s.open ==> {
            &&& went_down(
                link::after_event(
                    s,
                    LinkEvent::Socket(SocketEvent::Connected { greeted: false }),
                ),
            )
            &&& went_down(link::after_event(s, LinkEvent::Socket(SocketEvent::ReadFailed)))
            &&& went_down(link::after_event(s, LinkEvent::Socket(SocketEvent::Closed)))
            &&& s.retried_bearer || restart is Some ==> went_down(
                link::after_event(s, LinkEvent::Socket(SocketEvent::Failed { restart })),
            )
            &&& !s.retried_bearer && restart is None ==> {
                let (n, r) = link::after_event(
                    s,
                    LinkEvent::Socket(SocketEvent::Failed { restart }),
                );
                &&& n == (LinkView {
                    retried_bearer: true,
                    open: false,
                    phase: Phase::Bearer,
                    ..s
                })
                &&& r matches Next::Report(p, why) && p is Step && why is None
            }
        },
        went_down(link::after_event(s, LinkEvent::Work(None))),
{
}

/// Bytes the client refused end the link. The stored session is thrown away where the server says it
/// does not know the key, and for no other reason.
pub proof fn refused_bytes_end_the_link(s: LinkView, chunk: Vec<u8>, error: ClientError)
    requires
        s.phase != Phase::Dead,
        s.open,
    ensures
        ({
            let (n, r) = link::after_event(
                s,
                LinkEvent::Socket(SocketEvent::Refused { chunk, error }),
            );
            &&& n.phase == Phase::Dead
            &&& r matches Next::Report(p, why)
            &&& p is Disconnected
            &&& match error {
                ClientError::Server(code) => if code == -404 {
                    why == Some(Invalidate::UnknownKey)
                } else {
                    why is None
                },
                _ => why is None,
            }
        }),
{
}

/// Bytes the client took are followed by the steps it made of them, in its order, and nothing that
/// waited is lost.
pub proof fn what_came_in_is_carried_out(s: LinkView, count: usize, steps: Vec<Step>, i: int)
    requires
        s.phase != Phase::Dead,
        s.open,
        0 <= i < steps@.len(),
    ensures
        ({
            let (n, r) = link::after_event(
                s,
                LinkEvent::Socket(SocketEvent::Fed { count, steps }),
            );
            &&& r is Drain
            &&& n.todo.len() == s.todo.len() + steps@.len()
            &&& n.todo[n.todo.len() - 1 - i] == steps@[i]
            &&& n.todo.take(s.todo.len() as int) == s.todo
            &&& n.phase == s.phase
            &&& same_connection(n, s)
        }),
{
    let n = link::after_event(s, LinkEvent::Socket(SocketEvent::Fed { count, steps })).0;
    assert(n.todo.take(s.todo.len() as int) =~= s.todo);
}

/// Waiting for a bearer, a finished write and what means nothing leave a link as it is, but for its
/// log.
pub proof fn a_tick_changes_nothing(s: LinkView, n: usize)
    ensures
        (LinkView {
            notes: s.notes,
            ..link::after_event(s, LinkEvent::Socket(SocketEvent::Sent(n))).0
        }) == s,
        link::after_event(s, LinkEvent::Socket(SocketEvent::Other)).0 == s,
        link::after_event(s, LinkEvent::Bearer(BearerEvent::Waiting)).0 == s,
{
    assert((LinkView {
        notes: s.notes,
        ..link::after_event(s, LinkEvent::Socket(SocketEvent::Sent(n))).0
    }) =~= s);
}

// ---- what is kept ---------------------------------------------------------------------------------

/// A session that was kept is resumed where it was made: its key and the salt that came with it are
/// the handshake's, the next launch goes to its data centre, and asks for its access point.
pub proof fn a_kept_session_is_resumed(
    dc: u8,
    auth: AuthKey,
    time_offset: Option<i64>,
    iap: Option<u32>,
    other: u8,
    file: Option<u32>,
)
    ensures
        ({
            let s = link::kept_session(dc, auth, time_offset, iap);
            &&& s.auth == auth
            &&& s.salt == auth.salt
            &&& time_offset is Some ==> s.time_offset == time_offset->0
            &&& time_offset is None ==> s.time_offset == 0
            &&& link::usable_on(Some(s), other) == (other == dc)
            &&& iap is Some && iap->0 != 0 ==> link::iap_wanted(Some(s), file) == iap
            &&& iap is None || iap == Some(0u32) ==> link::iap_wanted(Some(s), file) == file
        }),
{
}

/// Without a session there is nothing to resume, and the access point is that of the last launch.
pub proof fn without_a_session_nothing_is_resumed(dc: u8, file: Option<u32>)
    ensures
        !link::usable_on(None, dc),
        link::iap_wanted(None, file) == file,
{
}

/// Everything cached of an account goes with it, and stays where only the key was unknown: that is
/// what a migration and a rotated key look like.
pub proof fn only_an_unknown_key_keeps_the_cache(why: Invalidate)
    ensures
        link::account_gone(why) == (why != Invalidate::UnknownKey),
{
}

/// Every data centre there is has an address of its own, and a number that is none of theirs goes to
/// one of them: zero to the default.
pub proof fn data_centres_have_their_own_addresses(a: u8, b: u8)
    requires
        1 <= a <= 5,
        1 <= b <= 5,
    ensures
        a != b ==> link::address_of(a) != link::address_of(b),
        link::address_of(0) == link::address_of(DEFAULT_DC),
{
}

/// The number some bytes write in decimal.
pub open spec fn written(b: Seq<u8>) -> int
    decreases b.len(),
{
    if b.len() == 0 {
        0
    } else {
        written(b.drop_last()) * 10 + (b.last() - 48)
    }
}

/// A configured number is the one its digits write, as far as the type holds it.
pub proof fn a_configured_number_is_read(b: Seq<u8>)
    requires
        link::all_digits(b),
    ensures
        written(b) <= i32::MAX ==> link::parsed_digits(b) == written(b),
        written(b) > i32::MAX ==> link::parsed_digits(b) == i32::MAX,
        0 <= written(b),
    decreases b.len(),
{
    if b.len() > 0 {
        let front = b.drop_last();
        assert(link::all_digits(front)) by {
            assert forall|i: int| 0 <= i < front.len() implies 48 <= #[trigger] front[i] <= 57 by {
                assert(front[i] == b[i]);
            }
        }
        assert(b.last() == b[b.len() - 1]);
        a_configured_number_is_read(front);
    }
}

// ---- what is said ---------------------------------------------------------------------------------

/// Whether a link says that it is over, for a reason.
pub open spec fn ends_with(r: (LinkView, Next), why: &'static str) -> bool {
    r.0.phase == Phase::Dead && r.1 == Next::Report(Progress::Disconnected(why), None)
}

/// Each way a link comes up or fails is noted, with the number that goes with it, and says what it is.
pub proof fn what_happens_to_a_bearer_is_noted_and_said(s: LinkView, iap: u32, code: i32)
    requires
        !s.open,
        s.phase != Phase::Dead,
        s.notes.len() + 3 <= link::MAX_NOTES,
    ensures
        ({
            let up = s.notes.push(("bearer up, iap", NoteView::Num(iap as int)));
            let on = up.push(("connecting to dc", NoteView::Num(s.dc as int)));
            let failed = link::after_event(s, LinkEvent::Bearer(BearerEvent::Failed(code)));
            let unopened = link::after_event(
                s,
                LinkEvent::Bearer(BearerEvent::Up { iap, socket: SocketStart::OpenFailed(code) }),
            );
            let unconnected = link::after_event(
                s,
                LinkEvent::Bearer(
                    BearerEvent::Up { iap, socket: SocketStart::ConnectFailed(code) },
                ),
            );
            let started = link::after_event(
                s,
                LinkEvent::Bearer(BearerEvent::Up { iap, socket: SocketStart::Started }),
            );
            let waiting = link::after_event(s, LinkEvent::Bearer(BearerEvent::Waiting));
            &&& failed.0.notes == s.notes.push(("bearer failed", NoteView::Num(code as int)))
            &&& ends_with(failed, "sem conexão de rede")
            &&& unopened.0.notes == up.push(("socket open failed", NoteView::Num(code as int)))
            &&& ends_with(unopened, "não consegui abrir o socket")
            &&& unconnected.0.notes == on.push(("connect failed", NoteView::Num(code as int)))
            &&& ends_with(unconnected, "não consegui alcançar o servidor")
            &&& started.0.notes == on
            &&& started.1 == Next::Report(Progress::Step("conectando ao Telegram"), None)
            &&& waiting.0 == s
            &&& waiting.1 == Next::Report(Progress::Step("aguardando rede"), None)
        }),
{
}

/// Each thing that happens to a socket is noted, with the number that goes with it, and a link that it
/// ends says why.
pub proof fn what_happens_to_a_socket_is_noted_and_said(
    s: LinkView,
    n: u32,
    count: u32,
    steps: Vec<Step>,
    code: i32,
)
    requires
        s.open,
        s.phase != Phase::Dead,
        s.notes.len() + 3 <= link::MAX_NOTES,
    ensures
        ({
            let on = |e: SocketEvent| link::after_event(s, LinkEvent::Socket(e));
            &&& on(SocketEvent::Connected { greeted: true }).0.notes == s.notes.push(
                ("tcp connected", NoteView::Flag),
            )
            &&& on(SocketEvent::Connected { greeted: true }).1 == Next::Drain(
                Progress::Step("conectado, sem nada a enviar"),
            )
            &&& ends_with(
                on(SocketEvent::Connected { greeted: false }),
                "could not send the transport greeting",
            )
            &&& ends_with(on(SocketEvent::ReadFailed), "read failed")
            &&& ends_with(on(SocketEvent::Closed), "the server closed the connection")
            &&& on(SocketEvent::Sent(n as usize)).0.notes == s.notes.push(
                ("tx completed, bytes", NoteView::Num(n as int)),
            )
            &&& on(SocketEvent::Fed { count: count as usize, steps }).0.notes == s.notes.push(
                ("rx bytes", NoteView::Num(count as int)),
            )
            &&& s.retried_bearer ==> ends_with(
                on(SocketEvent::Failed { restart: Some(code) }),
                "the connection failed",
            )
            &&& !s.retried_bearer ==> ends_with(
                on(SocketEvent::Failed { restart: Some(code) }),
                "sem conexão de rede",
            ) && on(SocketEvent::Failed { restart: Some(code) }).0.notes == s.notes.push(
                ("bearer retry failed", NoteView::Num(code as int)),
            )
            &&& !s.retried_bearer ==> on(SocketEvent::Failed { restart: None }).1 == Next::Report(
                Progress::Step("escolha um ponto de acesso"),
                None,
            )
        }),
{
}

/// What the worker brings back is noted with how long it is, and goes to whoever gave it the job; a
/// job that failed ends the link.
pub proof fn what_the_worker_brings_is_noted(s: LinkView, b: Vec<u8>)
    requires
        s.phase != Phase::Dead,
        s.notes.len() < link::MAX_NOTES,
        b@.len() <= 0x7fff_ffff,
    ensures
        ({
            let (n, r) = link::after_event(s, LinkEvent::Work(Some(b)));
            &&& !n.work_is_caller
            &&& n.phase == s.phase
            &&& s.work_is_caller ==> r == Next::Report(Progress::WorkDone(b), None) && n.notes
                == s.notes.push(("worker done, caller's, bytes", NoteView::Num(b@.len() as int)))
            &&& !s.work_is_caller ==> r == Next::FeedModPow(b) && n.notes == s.notes.push(
                ("worker done, handshake's, bytes", NoteView::Num(b@.len() as int)),
            )
        }),
        ends_with(link::after_event(s, LinkEvent::Work(None)), "the worker thread failed"),
{
}

/// The head of what could not be read is its first twenty-four bytes, or all of it.
pub proof fn a_head_is_the_beginning(b: Seq<u8>, i: int)
    ensures
        b.len() >= 24 ==> link::head_of(b).len() == 24,
        b.len() < 24 ==> link::head_of(b) == b,
        0 <= i < link::head_of(b).len() ==> link::head_of(b)[i] == b[i],
{
}

/// A message that the server would not take is noted, with the server's code and when it was stamped.
/// Where it is not about the clock the link goes on and says so; where it is, the clock is corrected,
/// once.
pub proof fn a_refused_message_is_noted(s: LinkView, stamped: i64, code: i32)
    requires
        s.notes.len() + 2 <= link::MAX_NOTES,
    ensures
        ({
            let (n, r) = link::after_update(s, Update::BadMessage { stamped, code });
            &&& n.notes == s.notes.push(
                ("bad_msg_notification code", NoteView::Num(code as int)),
            ).push(("rejected our msg_id at", NoteView::Num(stamped as int)))
            &&& code == 16 || code == 17 ==> (s.clock_fixed ==> n.phase == Phase::Dead) && (
            !s.clock_fixed ==> r == Some(DrainView::FixClock) && n.clock_fixed && n.phase == s.phase)
            &&& code != 16 && code != 17 ==> r == Some(
                DrainView::Report(Progress::Step("o servidor recusou uma mensagem"), None),
            ) && n.phase == s.phase && n.clock_fixed == s.clock_fixed
            &&& same_connection(n, s)
            &&& n.todo == s.todo
        }),
{
}

/// A clock that was corrected is kept, and the call the server threw away for it is made again, under
/// its own tag; one that could not be ends the link.
pub proof fn a_corrected_clock_makes_the_call_again(s: LinkView, t: i64, body: Seq<u8>, tag: u32)
    requires
        s.notes.len() + 2 <= link::MAX_NOTES,
    ensures
        ({
            let (n, keep, d) = link::corrected(s, Some(t));
            &&& keep
            &&& s.last_call == Some((body, tag)) ==> d == (DrainView::Resend { body, tag })
            &&& s.last_call is None ==> d == DrainView::Report(
                Progress::Step("relogio ajustado"),
                None,
            )
            &&& same_connection(n, s)
            &&& n.phase == s.phase
            &&& n.todo == s.todo
            &&& n.notes[s.notes.len() as int] == ("clock corrected to", NoteView::Num(t as int))
        }),
        ({
            let (n, keep, d) = link::corrected(s, None);
            &&& !keep
            &&& n.phase == Phase::Dead
            &&& d matches DrainView::Report(p, why) && p is Disconnected && why is None
        }),
{
}

/// What is handed over is noted with how long it is, and a job of the handshake's is the handshake's.
pub proof fn what_is_handed_over_is_noted(s: LinkView)
    requires
        s.open,
        s.todo.len() > 0,
        s.notes.len() < link::MAX_NOTES,
    ensures
        s.todo.last() matches Step::Send(b) ==> (b@.len() <= 0x7fff_ffff ==> link::drained(s).0.notes
            == s.notes.push(("tx bytes", NoteView::Num(b@.len() as int)))),
        s.todo.last() matches Step::ModPow { modulus, .. } ==> (modulus@.len() <= 0x7fff_ffff ==> {
            let n = link::drained(s).0;
            &&& n.notes == s.notes.push(
                ("handshake modpow, modulus bytes", NoteView::Num(modulus@.len() as int)),
            )
            &&& !n.work_is_caller
        }),
{
}

} // verus!
