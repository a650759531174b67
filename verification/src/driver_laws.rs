//! What the machine above the links is for: a request reaches the server as it was made, and its
//! answer reaches whoever made it.

use crate::driver;
use crate::driver::{
    Call, DcState, DriverView, Effect, Event, Expected, FileRequest, FxView, Home, On, OutcomeView,
    Purpose, Queued, Request, MAX_RETRIES, TAG_DIALOGS, TAG_EXPORT, TAG_FILE, TAG_HISTORY,
    TAG_IMPORT, TAG_INDEX, TAG_KIND, TAG_REFRESH, TAG_SEND,
};
use crate::link::Progress as LinkProgress;
use crate::login::Progress as LoginProgress;
use crate::model::PeerRef;
use vstd::prelude::*;

verus! {

// ---- requests -------------------------------------------------------------------------------------

/// Whether a tag says what kind of request it is for and which chat, as far as its bits reach.
pub open spec fn says(tag: u32, kind: u32, chat: usize) -> bool {
    &&& tag & TAG_KIND == kind
    &&& chat <= TAG_INDEX ==> tag & TAG_INDEX == chat
}

pub(crate) proof fn lemma_tag(kind: u32, chat: usize)
    requires
        kind & TAG_INDEX == 0,
    ensures
        says(driver::tagged(kind, driver::chat_bits(chat)), kind, chat),
{
    driver::a_tag_gives_back_its_parts(kind, driver::chat_bits(chat));
}

pub(crate) proof fn lemma_kinds()
    ensures
        TAG_HISTORY & TAG_INDEX == 0,
        TAG_SEND & TAG_INDEX == 0,
        TAG_FILE & TAG_INDEX == 0,
        TAG_REFRESH & TAG_INDEX == 0,
        TAG_EXPORT & TAG_INDEX == 0,
        TAG_IMPORT & TAG_INDEX == 0,
        TAG_DIALOGS & TAG_KIND == 0x1000_0000,
{
    assert(0x1001_0000u32 & 0xffff == 0 && 0x1002_0000u32 & 0xffff == 0 && 0x1003_0000u32 & 0xffff
        == 0 && 0x1004_0000u32 & 0xffff == 0 && 0x1005_0000u32 & 0xffff == 0 && 0x1006_0000u32
        & 0xffff == 0 && 0x1000_0001u32 & 0xffff_0000 == 0x1000_0000) by (bit_vector);
}

/// Whether two kinds of request are told apart by their tags.
pub open spec fn apart(a: u32, b: u32) -> bool {
    a & TAG_KIND != b & TAG_KIND
}

/// No two kinds of request share a tag.
pub proof fn requests_are_told_apart()
    ensures
        apart(TAG_DIALOGS, TAG_HISTORY) && apart(TAG_DIALOGS, TAG_SEND) && apart(
            TAG_DIALOGS,
            TAG_FILE,
        ) && apart(TAG_DIALOGS, TAG_REFRESH) && apart(TAG_DIALOGS, TAG_EXPORT) && apart(
            TAG_DIALOGS,
            TAG_IMPORT,
        ),
        apart(TAG_HISTORY, TAG_SEND) && apart(TAG_HISTORY, TAG_FILE) && apart(
            TAG_HISTORY,
            TAG_REFRESH,
        ) && apart(TAG_HISTORY, TAG_EXPORT) && apart(TAG_HISTORY, TAG_IMPORT),
        apart(TAG_SEND, TAG_FILE) && apart(TAG_SEND, TAG_REFRESH) && apart(TAG_SEND, TAG_EXPORT)
            && apart(TAG_SEND, TAG_IMPORT),
        apart(TAG_FILE, TAG_REFRESH) && apart(TAG_FILE, TAG_EXPORT) && apart(TAG_FILE, TAG_IMPORT),
        apart(TAG_REFRESH, TAG_EXPORT) && apart(TAG_REFRESH, TAG_IMPORT),
        apart(TAG_EXPORT, TAG_IMPORT),
{
    assert(0x1000_0001u32 & 0xffff_0000 == 0x1000_0000 && 0x1001_0000u32 & 0xffff_0000
        == 0x1001_0000 && 0x1002_0000u32 & 0xffff_0000 == 0x1002_0000 && 0x1003_0000u32
        & 0xffff_0000 == 0x1003_0000 && 0x1004_0000u32 & 0xffff_0000 == 0x1004_0000
        && 0x1005_0000u32 & 0xffff_0000 == 0x1005_0000 && 0x1006_0000u32 & 0xffff_0000
        == 0x1006_0000) by (bit_vector);
}

/// A page of the chat list is asked for from where it was said: the moment, the message and the peer
/// are each the request's own. Without a link nothing is asked.
pub proof fn a_page_of_chats_is_asked_for_from_its_offset(
    s: DriverView,
    date: i32,
    id: i32,
    after: Option<PeerRef>,
)
    ensures
        s.home is None ==> driver::dialogs_call(s, date, id, after) is None,
        s.home is Some ==> {
            &&& driver::dialogs_call(s, date, id, after) matches Some(c)
            &&& c.on == On::Home
            &&& c.tag == TAG_DIALOGS
            &&& c.request matches Request::Dialogs { limit, offset_date, offset_id, offset_peer }
            &&& limit > 0
            &&& offset_date == date
            &&& offset_id == id
            &&& offset_peer == after
        },
{
}

/// A page of a conversation is asked for of its peer, above its message, and under a tag that says
/// which chat it is for.
pub proof fn a_page_of_history_is_asked_for_of_its_peer(
    s: DriverView,
    chat: usize,
    peer: PeerRef,
    above: i32,
)
    ensures
        s.home is None ==> driver::history_call(s, chat, peer, above) is None,
        s.home is Some ==> {
            &&& driver::history_call(s, chat, peer, above) matches Some(c)
            &&& c.on == On::Home
            &&& says(c.tag, TAG_HISTORY, chat)
            &&& c.request matches Request::History { peer: p, offset_id, limit }
            &&& p == peer
            &&& offset_id == above
            &&& limit > 0
        },
{
    lemma_kinds();
    lemma_tag(TAG_HISTORY, chat);
}

/// A message goes out to its peer in its own words, under a tag that says which chat it is for.
pub proof fn a_message_goes_out_as_it_was_written(
    s: DriverView,
    chat: usize,
    peer: PeerRef,
    words: String,
)
    ensures
        s.home is None ==> driver::send_call(s, chat, peer, words) is None,
        s.home is Some ==> {
            &&& driver::send_call(s, chat, peer, words) matches Some(c)
            &&& c.on == On::Home
            &&& says(c.tag, TAG_SEND, chat)
            &&& c.request matches Request::Send { peer: p, text }
            &&& p == peer
            &&& text == words
        },
{
    lemma_kinds();
    lemma_tag(TAG_SEND, chat);
}

/// A message is asked for again by its id and of its peer.
pub proof fn a_message_is_asked_for_again_by_its_id(
    s: DriverView,
    chat: usize,
    peer: PeerRef,
    id: i32,
)
    ensures
        s.home is None ==> driver::refresh_call(s, chat, peer, id) is None,
        s.home is Some ==> {
            &&& driver::refresh_call(s, chat, peer, id) matches Some(c)
            &&& c.on == On::Home
            &&& says(c.tag, TAG_REFRESH, chat)
            &&& c.request matches Request::Refresh { peer: p, message }
            &&& p == peer
            &&& message == id
        },
{
    lemma_kinds();
    lemma_tag(TAG_REFRESH, chat);
}

/// Whether an effect sends a request for a chunk on a link, as it was made.
pub open spec fn sends_chunk(fx: FxView, on: On, req: FileRequest) -> bool {
    &&& fx matches FxView::Do(Effect::Call(c))
    &&& c.on == on
    &&& c.request == Request::File(req)
    &&& says(c.tag, TAG_FILE, req.chat)
}

/// A chunk of a file is asked for as it was requested, on the link to where the file lives: the home
/// link for a file at home or one that names no place, and otherwise a link to that place, which is
/// opened first where there is none.
pub proof fn a_chunk_is_asked_for_where_the_file_lives(
    s: DriverView,
    req: FileRequest,
    dc: u8,
    busy: bool,
)
    ensures
        ({
            let (n, e, fx) = driver::chunk(s, req, dc, busy);
            let at_home = dc == 0 || (s.home matches Some(h) && h.dc == dc);
            &&& n.home == s.home
            &&& n.pending_call == s.pending_call
            &&& n.stuck_timer == s.stuck_timer
            &&& n.retries == s.retries
            &&& at_home && s.home is Some ==> {
                &&& fx.len() == 1
                &&& sends_chunk(fx[0], On::Home, req)
                &&& e == Expected::IfSent
                &&& !n.file_req_on_dc
                &&& n.file_dc == s.file_dc
            }
            &&& at_home && s.home is None ==> fx.len() == 0 && e == Expected::Refused
            &&& !at_home && s.file_dc is Some && s.file_dc->0.dc == dc ==> {
                &&& e == Expected::Coming
                &&& n.file_req_on_dc
                &&& if s.file_dc->0.state == DcState::Ready {
                    fx.len() == 1 && sends_chunk(fx[0], On::File, req)
                } else {
                    &&& fx.len() == 0
                    &&& n.file_dc matches Some(f)
                    &&& f.dc == dc
                    &&& f.waiting == Some(req)
                    &&& f.state == s.file_dc->0.state
                }
            }
            &&& !at_home && !(s.file_dc is Some && s.file_dc->0.dc == dc) ==> {
                &&& n.file_dc is None
                &&& s.file_dc is Some ==> fx.len() > 0 && fx[0] == Effect::CloseFile@
                &&& s.home is None || busy ==> e == Expected::Refused
                &&& s.home is Some && !busy ==> {
                    &&& e == Expected::IfOpened
                    &&& fx.len() > 0
                    &&& fx.last() == Effect::OpenFileLink(dc, req)@
                }
            }
        }),
{
    lemma_kinds();
    lemma_tag(TAG_FILE, req.chat);
}

/// An answer is expected of what went out or waits for its link, and of nothing that was refused.
pub proof fn an_answer_is_owed_for_what_went_out(ok: bool)
    ensures
        !Expected::Refused.owed(ok),
        Expected::Coming.owed(ok),
        Expected::IfSent.owed(ok) == ok,
        Expected::IfOpened.owed(ok) == ok,
{
}

// ---- answers --------------------------------------------------------------------------------------

/// Whether a tag is one that the application asks under.
pub open spec fn is_the_applications(tag: u32) -> bool {
    ||| tag == TAG_DIALOGS
    ||| tag & TAG_KIND == TAG_HISTORY
    ||| tag & TAG_KIND == TAG_SEND
    ||| tag & TAG_KIND == TAG_FILE
    ||| tag & TAG_KIND == TAG_REFRESH
}

/// What the driver holds of its links, apart from what it waits for.
pub open spec fn same_links(a: DriverView, b: DriverView) -> bool {
    &&& a.home == b.home
    &&& a.file_dc == b.file_dc
    &&& a.pending_call == b.pending_call
    &&& a.queued == b.queued
    &&& a.persisted == b.persisted
    &&& a.retries == b.retries
}

/// An answer on the home link reaches whoever asked, whole: the application under its tag, the
/// download's second link where it is a token, and the login machine otherwise. The wait for it is
/// over.
pub proof fn an_answer_goes_to_whoever_asked(
    s: DriverView,
    tag: u32,
    body: Vec<u8>,
    authorized: bool,
)
    requires
        s.home is Some,
    ensures
        ({
            let t = driver::turn(
                s,
                Event::Home(LinkProgress::Reply { tag, body }),
                authorized,
            );
            &&& is_the_applications(tag) ==> t.out == OutcomeView::Answered(tag, body)
            &&& tag & TAG_KIND == TAG_EXPORT ==> t.out == OutcomeView::Nothing && t.fx.len() > 0
                && t.fx.last() == Effect::ParseExport(body)@
            &&& !is_the_applications(tag) && tag & TAG_KIND != TAG_EXPORT ==> t.out
                == OutcomeView::Nothing && t.fx.len() > 0 && t.fx.last() == (Effect::LoginReply {
                tag,
                body,
            })@
            &&& same_links(t.s, s)
            &&& s.stuck_timer matches Some((h, w)) ==> (w == tag ==> t.s.stuck_timer is None
                && t.fx.len() > 0 && t.fx[0] == Effect::CancelTimer(h)@)
        }),
{
    requests_are_told_apart();
    lemma_own_kinds();
}

proof fn lemma_own_kinds()
    ensures
        TAG_EXPORT & TAG_KIND == TAG_EXPORT,
        TAG_FILE & TAG_KIND == TAG_FILE,
        TAG_IMPORT & TAG_KIND == TAG_IMPORT,
        TAG_DIALOGS & TAG_KIND != TAG_EXPORT,
{
    assert(0x1000_0001u32 & 0xffff_0000 == 0x1000_0000 && 0x1001_0000u32 & 0xffff_0000
        == 0x1001_0000 && 0x1002_0000u32 & 0xffff_0000 == 0x1002_0000 && 0x1003_0000u32
        & 0xffff_0000 == 0x1003_0000 && 0x1004_0000u32 & 0xffff_0000 == 0x1004_0000
        && 0x1005_0000u32 & 0xffff_0000 == 0x1005_0000 && 0x1006_0000u32 & 0xffff_0000
        == 0x1006_0000) by (bit_vector);
}

/// A refusal on the home link reaches whoever asked, in the server's words, and costs nothing else.
pub proof fn a_refusal_goes_to_whoever_asked(
    s: DriverView,
    tag: u32,
    code: i32,
    words: String,
    authorized: bool,
)
    requires
        s.home is Some,
    ensures
        ({
            let t = driver::turn(
                s,
                Event::Home(LinkProgress::Failed { tag, code, text: words }),
                authorized,
            );
            &&& is_the_applications(tag) ==> t.out == OutcomeView::RequestFailed(tag, words@)
            &&& !is_the_applications(tag) ==> t.out == OutcomeView::Nothing && t.fx.len() > 0
                && t.fx.last() == (Effect::LoginError { tag, text: words })@
            &&& same_links(t.s, s)
        }),
{
}

/// A chunk that came on the second link reaches the application; a refusal there ends the link, and
/// the application learns of it in the server's words.
pub proof fn a_chunk_from_the_second_link_reaches_the_application(
    s: DriverView,
    tag: u32,
    body: Vec<u8>,
    code: i32,
    words: String,
    authorized: bool,
)
    requires
        s.file_dc is Some,
        tag & TAG_KIND == TAG_FILE,
    ensures
        ({
            let got = driver::turn(
                s,
                Event::File(LinkProgress::Reply { tag, body }),
                authorized,
            );
            let failed = driver::turn(
                s,
                Event::File(LinkProgress::Failed { tag, code, text: words }),
                authorized,
            );
            &&& got.out == OutcomeView::Answered(tag, body)
            &&& same_links(got.s, s)
            &&& failed.out matches OutcomeView::RequestFailed(t, w)
            &&& t & TAG_KIND == TAG_FILE
            &&& w == words@
            &&& failed.s.file_dc is None
            &&& failed.s.home == s.home
            &&& failed.fx.len() > 0
            &&& failed.fx.last() == Effect::CloseFile@
        }),
{
    requests_are_told_apart();
    lemma_own_kinds();
}

// ---- the second link ------------------------------------------------------------------------------

/// A download from another data centre waits for its link to be signed in, and then goes out as it
/// was asked for: the link's key is made, a token for that very place is asked of the home link, the
/// token is handed over as it came, and the request that waited is sent.
pub proof fn a_download_waits_for_its_link_and_goes_out(
    s: DriverView,
    dc: u8,
    req: FileRequest,
    id: i64,
    token: Vec<u8>,
    done: Vec<u8>,
    import: u32,
    authorized: bool,
)
    requires
        s.home is Some,
        import & TAG_KIND == TAG_IMPORT,
    ensures
        ({
            let a = driver::turn(s, Event::Opened { dc, request: req, ok: true }, authorized);
            let b = driver::turn(a.s, Event::File(LinkProgress::Authenticated), authorized);
            let c = driver::turn(b.s, Event::Exported(Some((id, token))), authorized);
            let d = driver::turn(
                c.s,
                Event::File(LinkProgress::Reply { tag: import, body: done }),
                authorized,
            );
            &&& a.s.file_dc matches Some(f) && f.dc == dc && f.waiting == Some(req) && f.state
                == DcState::Connecting
            &&& b.s.file_dc matches Some(f) && f.state == DcState::AwaitingExport
            &&& b.fx.len() == 1
            &&& b.fx[0] matches FxView::Do(Effect::Call(x)) && x.on == On::Home && x.request == (
            Request::ExportAuthorization { dc }) && x.tag & TAG_KIND == TAG_EXPORT
            &&& c.s.file_dc matches Some(f) && f.state == DcState::Importing
            &&& c.fx.len() == 1
            &&& c.fx[0] matches FxView::Do(Effect::Call(x)) && x.on == On::File && x.request == (
            Request::ImportAuthorization { id, bytes: token }) && x.tag & TAG_KIND == TAG_IMPORT
            &&& d.s.file_dc matches Some(f) && f.dc == dc && f.state == DcState::Ready && f.waiting
                is None
            &&& d.fx.len() > 0
            &&& sends_chunk(d.fx.last(), On::File, req)
            &&& d.s.file_req_on_dc
            &&& d.s.home == s.home
        }),
{
    lemma_kinds();
    lemma_own_kinds();
    driver::a_tag_gives_back_its_parts(TAG_EXPORT, dc as u32);
    driver::a_tag_gives_back_its_parts(TAG_IMPORT, dc as u32);
    lemma_tag(TAG_FILE, req.chat);
}

/// A link that could not be opened leaves everything as it was, and a token that could not be read
/// ends the second link with the download told.
pub proof fn a_second_link_that_fails_is_told(
    s: DriverView,
    dc: u8,
    req: FileRequest,
    why: &'static str,
    authorized: bool,
)
    ensures
        driver::turn(s, Event::Opened { dc, request: req, ok: false }, authorized).s == s,
        ({
            let t = driver::turn(s, Event::Exported(None), authorized);
            &&& t.out matches OutcomeView::RequestFailed(tag, _) && tag & TAG_KIND == TAG_FILE
            &&& t.s.file_dc is None && t.s.home == s.home
            &&& t.fx == seq![Effect::CloseFile@]
        }),
        s.file_dc is Some ==> {
            let t = driver::turn(s, Event::File(LinkProgress::Disconnected(why)), authorized);
            &&& t.s.file_dc is None && t.s.home == s.home && t.s.retries == s.retries
            &&& t.fx == seq![Effect::CloseFile@]
            &&& s.file_dc->0.waiting is Some ==> (t.out matches OutcomeView::RequestFailed(tag, w)
                && tag & TAG_KIND == TAG_FILE && w == why@)
        },
{
    lemma_own_kinds();
}

// ---- waiting and reconnecting ---------------------------------------------------------------------

/// Every request that is handed to its link is waited for, under its own tag, for some time; a chunk
/// of a file for longer. The wait for the request before it is called off.
pub proof fn a_request_is_waited_for(s: DriverView, call: Call, sent: bool, authorized: bool)
    ensures
        ({
            let t = driver::turn(s, Event::Called { call, sent }, authorized);
            &&& t.fx.len() > 0
            &&& t.fx.last() matches FxView::Do(Effect::SetTimer(Purpose::Watch(tag), ms))
            &&& tag == call.tag
            &&& call.tag & TAG_KIND == TAG_FILE ==> ms == 60_000
            &&& call.tag & TAG_KIND != TAG_FILE ==> ms == 10_000
            &&& s.stuck_timer matches Some((h, _)) ==> t.fx[0] == Effect::CancelTimer(h)@
            &&& t.s.stuck_timer is None
            &&& t.s.home == s.home
        }),
{
}

/// A timer that was started stands under its handle, for what it was asked for.
pub proof fn a_started_timer_is_remembered(
    s: DriverView,
    h: i32,
    tag: u32,
    why: &'static str,
    authorized: bool,
)
    ensures
        driver::turn(
            s,
            Event::TimerSet(Purpose::Watch(tag), Some(h)),
            authorized,
        ).s.stuck_timer == Some((h, tag)),
        driver::turn(
            s,
            Event::TimerSet(Purpose::Connect, Some(h)),
            authorized,
        ).s.connect_timer == Some(h),
        driver::turn(
            s,
            Event::TimerSet(Purpose::Reconnect(why), Some(h)),
            authorized,
        ).s.reconnect_timer == Some(h),
        driver::turn(s, Event::TimerSet(Purpose::Reconnect(why), None), authorized).out
            == OutcomeView::Disconnected(why),
{
}

/// The timers that connect start the link and are spent; a reconnection counts. A timer that is
/// none of the driver's does nothing.
pub proof fn a_timer_starts_the_link(s: DriverView, h: i32, authorized: bool)
    ensures
        ({
            let t = driver::turn(s, Event::Timer(h), authorized);
            &&& s.connect_timer == Some(h) ==> t.fx == seq![Effect::StartLink@]
                && t.s.connect_timer is None && t.s.retries == s.retries
            &&& s.connect_timer != Some(h) && s.reconnect_timer == Some(h) ==> t.fx
                == seq![Effect::StartLink@] && t.s.reconnect_timer is None && (s.retries < u8::MAX
                ==> t.s.retries == s.retries + 1) && (s.retries == u8::MAX ==> t.s.retries
                == u8::MAX)
            &&& s.connect_timer != Some(h) && s.reconnect_timer != Some(h) && !(
            s.stuck_timer matches Some((w, _)) && w == h) ==> t.s == s && t.fx.len() == 0 && t.out
                == OutcomeView::Nothing
        }),
{
}

/// A server that does not answer costs the connection, which is made anew a few times, and then the
/// user is told.
pub proof fn a_silent_server_is_given_up(s: DriverView, h: i32, tag: u32, authorized: bool)
    requires
        s.stuck_timer == Some((h, tag)),
        s.connect_timer != Some(h),
        s.reconnect_timer != Some(h),
        s.file_dc is None,
    ensures
        ({
            let t = driver::turn(s, Event::Timer(h), authorized);
            &&& t.s.home is None
            &&& t.s.stuck_timer is None
            &&& t.fx.len() > 0 && t.fx[0] == Effect::CloseHome@
            &&& s.retries >= MAX_RETRIES ==> t.out is Disconnected && t.fx.len() == 1
            &&& s.retries < MAX_RETRIES ==> t.fx.len() == 2 && t.fx[1] == Effect::StartLink@
                && t.s.retries == s.retries + 1 && t.out == OutcomeView::Nothing
        }),
{
}

/// A lost connection is closed and made anew after a while, for the reason it was lost; after too
/// many the user is told that reason.
pub proof fn a_lost_connection_is_made_anew(
    s: DriverView,
    why: &'static str,
    authorized: bool,
)
    requires
        s.home is Some,
    ensures
        ({
            let t = driver::turn(s, Event::Home(LinkProgress::Disconnected(why)), authorized);
            &&& t.s.home is None
            &&& !t.s.persisted
            &&& t.s.stuck_timer is None
            &&& t.s.pending_call == s.pending_call
            &&& t.fx.len() > 0 && t.fx[0] == Effect::CloseHome@
            &&& s.retries < MAX_RETRIES ==> t.out == OutcomeView::Nothing && (
            t.fx.last() matches FxView::Do(Effect::SetTimer(Purpose::Reconnect(w), ms)) && w == why
                && ms > 0)
            &&& s.retries >= MAX_RETRIES ==> t.out == OutcomeView::Disconnected(why)
        }),
{
}

/// A link that was started is the one the session lives on; one that could not be is told.
pub proof fn a_started_link_is_home(s: DriverView, routes: u32, home: Home, authorized: bool)
    ensures
        driver::turn(s, Event::Started { routes, link: Some(home) }, authorized).s.home == Some(
            home,
        ),
        driver::turn(s, Event::Started { routes, link: None }, authorized).out is Disconnected,
        driver::turn(s, Event::Started { routes, link: None }, authorized).s.home == s.home,
{
}

/// A session that is up is written to disk, once, and counts as progress. One that was read from
/// disk signs its user in without asking anything; any other brings the phone screen up. What was
/// asked for before is sent then, in its order.
pub proof fn a_session_that_is_up_is_used(s: DriverView, home: Home, authorized: bool)
    requires
        s.home == Some(home),
    ensures
        ({
            let t = driver::turn(s, Event::Home(LinkProgress::Authenticated), authorized);
            &&& t.s.persisted
            &&& t.s.retries == 0
            &&& t.s.home == s.home
            &&& !s.persisted ==> t.fx.len() > 0 && t.fx[0] == Effect::Persist@
            &&& s.persisted ==> !t.fx.contains(Effect::Persist@)
            &&& (t.out == OutcomeView::Authorized) == (home.resumed && !authorized)
            &&& !home.resumed ==> t.fx.contains(Effect::ShowPhone@)
            &&& home.resumed ==> !t.fx.contains(Effect::ShowPhone@)
            &&& !(home.resumed && !authorized) && s.pending_call.len() > 0 ==> t.fx.contains(
                FxView::Flush(s.pending_call),
            ) && t.s.pending_call.len() == 0
            &&& home.resumed && !authorized ==> t.s.pending_call == s.pending_call
            &&& !home.resumed && !authorized && s.pending_call.len() == 0 ==> t.fx.contains(
                Effect::ResumeLogin@,
            )
        }),
{
    let t = driver::turn(s, Event::Home(LinkProgress::Authenticated), authorized);
    let saved: Seq<FxView> = if s.persisted {
        seq![]
    } else {
        seq![Effect::Persist@]
    };
    let shown = if home.resumed {
        saved
    } else {
        saved.push(Effect::ShowPhone@)
    };
    if !home.resumed {
        assert(t.fx[saved.len() as int] == Effect::ShowPhone@);
    }
    if !(home.resumed && !authorized) && s.pending_call.len() > 0 {
        assert(t.fx[shown.len() as int] == FxView::Flush(s.pending_call));
    }
    if !home.resumed && !authorized && s.pending_call.len() == 0 {
        assert(t.fx[shown.len() as int] == Effect::ResumeLogin@);
    }
}

// ---- the login ------------------------------------------------------------------------------------

/// What the login machine asks for is done as it asks: its calls go out on the home link with their
/// body and their tag, its work goes to the worker with each part in its place, and a move goes to
/// the data centre it names.
pub proof fn the_login_machine_is_obeyed(
    s: DriverView,
    body: Vec<u8>,
    tag: u32,
    a: Vec<u8>,
    b: Vec<u8>,
    c: Vec<u8>,
    dc: u8,
)
    requires
        s.home is Some,
    ensures
        ({
            let call = driver::on_login(s, LoginProgress::Call { body, tag });
            let kdf = driver::on_login(
                s,
                LoginProgress::Kdf { password: a, salt1: b, salt2: c },
            );
            let pow = driver::on_login(s, LoginProgress::ModPow { base: a, exp: b, modulus: c });
            let away = driver::on_login(s, LoginProgress::Migrate(dc));
            &&& call.fx == seq![
                Effect::Call(Call { on: On::Home, request: Request::Login(body), tag })@,
            ]
            &&& kdf.fx.len() == 1
            &&& kdf.fx[0] matches FxView::Do(Effect::Submit(Queued::Kdf { password, salt1, salt2 }))
                && password == a && salt1 == b && salt2 == c
            &&& pow.fx.len() == 1
            &&& pow.fx[0] matches FxView::Do(Effect::Submit(Queued::ModPow { base, exp, modulus }))
                && base == a && exp == b && modulus == c
            &&& away.fx == seq![Effect::Migrate(dc)@]
            &&& !away.s.persisted
            &&& driver::on_login(s, LoginProgress::Authorized).out == OutcomeView::Authorized
            &&& call.s.retries == 0
        }),
{
}

/// Without a link the login machine is told, and nothing of it is sent or computed.
pub proof fn a_login_needs_a_link(s: DriverView, p: LoginProgress)
    requires
        s.home is None,
    ensures
        driver::on_login(s, p).fx.len() == 0,
        p is Call || p is Migrate ==> driver::on_login(s, p).out is Disconnected,
{
}

/// Work that the worker was too busy for is given to it again, as it was, when it is free.
pub proof fn held_work_is_done_later(s: DriverView, work: Queued, authorized: bool)
    ensures
        ({
            let held = driver::turn(
                s,
                Event::Submitted { work, accepted: false, busy: true },
                authorized,
            ).s;
            let free = driver::turn(held, Event::WorkerFree, authorized);
            &&& s.home is Some ==> free.fx == seq![Effect::Submit(work)@]
            &&& free.s.queued is None
            &&& driver::turn(s, Event::Submitted { work, accepted: true, busy: true }, authorized).s
                == s
            &&& s.queued is None ==> driver::turn(s, Event::WorkerFree, authorized).fx.len() == 0
        }),
{
}

/// What the worker computed goes back to the login machine, as it is: a key of a password by its
/// width, and an exponentiation otherwise.
pub proof fn computed_work_reaches_the_login(s: DriverView, bytes: Vec<u8>, authorized: bool)
    requires
        s.home is Some,
    ensures
        ({
            let t = driver::turn(s, Event::Home(LinkProgress::WorkDone(bytes)), authorized);
            &&& t.s == s
            &&& t.fx.len() == 1
            &&& bytes@.len() == 32 ==> t.fx[0] == Effect::LoginKdf(bytes)@
            &&& bytes@.len() != 32 ==> t.fx[0] == Effect::LoginModPow(bytes)@
        }),
{
}

/// A login that was moved goes on at the other data centre, where it has no session yet, and asks for
/// its code again.
pub proof fn a_move_goes_on_at_the_other_place(s: DriverView, dc: u8, authorized: bool)
    ensures
        ({
            let t = driver::turn(s, Event::Migrated { dc, ok: true }, authorized);
            &&& t.s.home matches Some(h) && h.dc == dc && !h.resumed
            &&& t.fx == seq![Effect::AskCodeAgain@]
        }),
        driver::turn(s, Event::Migrated { dc, ok: false }, authorized).s == s,
        driver::turn(s, Event::Migrated { dc, ok: false }, authorized).out is Disconnected,
{
}

/// What a link says of its progress is what a waiting screen says.
pub proof fn a_step_is_shown(s: DriverView, words: &'static str, authorized: bool)
    requires
        s.home is Some,
    ensures
        driver::turn(s, Event::Home(LinkProgress::Step(words)), authorized).s.status == words,
        driver::turn(s, Event::Home(LinkProgress::Step(words)), authorized).out
            == OutcomeView::Redraw,
{
}

// ---- what is said ---------------------------------------------------------------------------------

/// Each stage of a connection says what it is, and each failure what failed.
pub proof fn each_stage_says_what_it_is(
    s: DriverView,
    h: i32,
    routes: u32,
    home: Home,
    why: &'static str,
    work: Queued,
    dc: u8,
    authorized: bool,
)
    ensures
        driver::turn(s, Event::TimerSet(Purpose::Connect, Some(h)), authorized).s.status
            == "iniciando",
        driver::turn(s, Event::TimerSet(Purpose::Reconnect(why), Some(h)), authorized).s.status
            == "reconectando",
        driver::turn(s, Event::Started { routes, link: Some(home) }, authorized).s.status
            == "conectando",
        driver::turn(s, Event::Started { routes, link: None }, authorized).s.status == (if routes
            == 0 {
            "procure o diálogo de conexão"
        } else {
            "conectando"
        }),
        driver::turn(s, Event::Started { routes, link: None }, authorized).out
            == OutcomeView::Disconnected("sem conexão de rede"),
        s.home is Some ==> driver::turn(
            s,
            Event::Home(LinkProgress::Authenticated),
            authorized,
        ).s.status == "conectado",
        driver::turn(s, Event::Migrated { dc, ok: true }, authorized).s.status
            == "mudando de servidor",
        driver::turn(s, Event::Migrated { dc, ok: false }, authorized).out
            == OutcomeView::Disconnected("não consegui mudar de servidor"),
        driver::turn(
            s,
            Event::Submitted { work, accepted: false, busy: false },
            authorized,
        ).s.status == "não consegui calcular a chave",
        ({
            let t = driver::turn(
                s,
                Event::Submitted { work, accepted: false, busy: false },
                authorized,
            );
            t.s.queued == s.queued && t.s.home == s.home && t.fx.len() == 0
        }),
{
}

/// The login says what it is at, and that it has no connection where it has none.
pub proof fn the_login_says_what_it_is_at(
    s: DriverView,
    a: Vec<u8>,
    b: Vec<u8>,
    c: Vec<u8>,
    tag: u32,
    dc: u8,
)
    ensures
        driver::on_login(s, LoginProgress::Kdf { password: a, salt1: b, salt2: c }).s.status
            == "derivando a chave...",
        driver::on_login(s, LoginProgress::ModPow { base: a, exp: b, modulus: c }).s.status
            == "verificando a senha...",
        s.home is None ==> driver::on_login(s, LoginProgress::Call { body: a, tag }).out
            == OutcomeView::Disconnected("sem conexão"),
        s.home is None ==> driver::on_login(s, LoginProgress::Migrate(dc)).out
            == OutcomeView::Disconnected("sem conexão"),
        driver::on_login(s, LoginProgress::Nothing).s == s,
        driver::on_login(s, LoginProgress::Nothing).out == OutcomeView::Redraw,
{
}

/// A download that gets no answer on its second link is told that it timed out, and a token that
/// cannot be read that it cannot; the session stays.
pub proof fn a_download_that_fails_says_why(s: DriverView, h: i32, tag: u32, authorized: bool)
    requires
        s.stuck_timer == Some((h, tag)),
        s.connect_timer != Some(h),
        s.reconnect_timer != Some(h),
        s.file_dc is Some,
        s.file_dc->0.waiting is Some,
        tag & TAG_KIND == TAG_IMPORT || (tag & TAG_KIND == TAG_FILE && s.file_req_on_dc),
    ensures
        ({
            let t = driver::turn(s, Event::Timer(h), authorized);
            &&& t.out matches OutcomeView::RequestFailed(at, words)
            &&& at & TAG_KIND == TAG_FILE
            &&& words == "TIMEOUT"@
            &&& t.s.home == s.home
            &&& t.s.retries == s.retries
            &&& t.s.file_dc is None
            &&& t.fx == seq![Effect::CloseFile@]
        }),
        driver::turn(s, Event::Exported(None), authorized).out matches OutcomeView::RequestFailed(
            _,
            words,
        ) && words == "EXPORT_PARSE_FAILED"@,
{
    lemma_own_kinds();
}

/// A connection that is lost is made anew after two seconds, and one that gives no answer is said to
/// have given none.
pub proof fn a_lost_connection_is_not_made_anew_at_once(
    s: DriverView,
    why: &'static str,
    h: i32,
    tag: u32,
    authorized: bool,
)
    ensures
        s.home is Some && s.retries < MAX_RETRIES ==> (driver::turn(
            s,
            Event::Home(LinkProgress::Disconnected(why)),
            authorized,
        ).fx.last() matches FxView::Do(Effect::SetTimer(Purpose::Reconnect(_), ms)) && ms == 2000),
        s.home is Some ==> (s.stuck_timer matches Some((w, _)) ==> driver::turn(
            s,
            Event::Home(LinkProgress::Disconnected(why)),
            authorized,
        ).fx[1] == Effect::CancelTimer(w)@),
        s.stuck_timer == Some((h, tag)) && s.connect_timer != Some(h) && s.reconnect_timer != Some(h)
            && s.file_dc is None && s.retries >= 3 ==> driver::turn(s, Event::Timer(h), authorized).out
            == OutcomeView::Disconnected("o servidor não respondeu"),
{
}

/// What was held is waited for once it went out: for the last of it, as long as its kind is waited for.
pub proof fn held_requests_are_waited_for(s: DriverView, home: Home, tag: u32, request: Request)
    requires
        s.home == Some(home),
        s.pending_call.len() > 0,
        s.pending_call.last() == (request, tag),
        tag != 0,
    ensures
        ({
            let t = driver::turn(s, Event::Home(LinkProgress::Authenticated), true);
            &&& t.out == OutcomeView::Redraw
            &&& t.fx.last() matches FxView::Do(Effect::SetTimer(Purpose::Watch(at), ms))
            &&& at == tag
            &&& tag & TAG_KIND == TAG_FILE ==> ms == 60_000
            &&& tag & TAG_KIND != TAG_FILE ==> ms == 10_000
        }),
{
}

/// The data centre of the account is that of the link it lives on.
pub proof fn the_account_lives_where_its_link_is(s: DriverView, home: Home)
    ensures
        s.home == Some(home) ==> driver::dc_of(s) == home.dc,
        s.home is None ==> driver::dc_of(s) == 0,
{
}

} // verus!
