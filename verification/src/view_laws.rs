//! What the statements of this library speak of: the values of a thing are the thing's own, each in
//! its own place.

use crate::app;
use crate::app::{App, Do, DoView, PendingFile, ScreenView, Wanted, WantedView};
use crate::chats_decl::ChatRow;
use crate::conv::{ConvAction, ConvActionView, Conversation};
use crate::conv_decl;
use crate::driver;
use crate::driver::{Driver, Effect, FileRequest, FxView, Outcome, OutcomeView};
use crate::link::{DrainNext, DrainView, Link, Note, NoteView};
use crate::login;
use crate::login::{Login, LoginAction, LoginActionView};
use crate::login_decl;
use crate::model;
use crate::model::{Chat, Message, Store};
use crate::mvu;
use crate::proto;
use crate::selfcheck;
use crate::transcript::Laid;
use crate::ui;
use crate::ui::{Field, Op, OpView};
use vstd::prelude::*;

verus! {

// ---- what the server says -------------------------------------------------------------------------

/// A size of a photo, as it is read.
pub proof fn a_size_is_read_as_it_is(s: proto::SizeOption)
    ensures
        s@.kind == s.kind@,
        s@.w == s.w,
        s@.h == s.h,
        s@.size == s.size,
        s.inline is None ==> s@.inline is None,
        s.inline matches Some(b) ==> s@.inline == Some(b@),
        s@.complete == s.complete,
        s@.progressive == s.progressive,
{
}

/// An attachment, as it is read.
pub proof fn an_attachment_is_read_as_it_is(m: proto::Media)
    ensures
        m matches proto::Media::Photo { id, access_hash, file_reference, dc_id, sizes } ==> {
            &&& m@ matches proto::MediaView::Photo {
                id: i,
                access_hash: k,
                file_reference: r,
                dc_id: d,
                sizes: s,
            }
            &&& i == id && k == access_hash && r == file_reference@ && d == dc_id
            &&& s.len() == sizes@.len()
            &&& forall|n: int| 0 <= n < s.len() ==> #[trigger] s[n] == sizes@[n]@
        },
        m matches proto::Media::Sticker { id, access_hash, file_reference, dc_id, alt, thumbs } ==> {
            &&& m@ matches proto::MediaView::Sticker {
                id: i,
                access_hash: k,
                file_reference: r,
                dc_id: d,
                alt: a,
                thumbs: s,
            }
            &&& i == id && k == access_hash && r == file_reference@ && d == dc_id && a == alt@
            &&& s.len() == thumbs@.len()
            &&& forall|n: int| 0 <= n < s.len() ==> #[trigger] s[n] == thumbs@[n]@
        },
        m matches proto::Media::Document {
            id,
            access_hash,
            file_reference,
            dc_id,
            filename,
            size,
            duration,
            is_voice,
            waveform,
        } ==> {
            &&& m@ matches proto::MediaView::Document {
                id: i,
                access_hash: k,
                file_reference: r,
                dc_id: d,
                filename: f,
                size: n,
                duration: t,
                is_voice: v,
                waveform: w,
            }
            &&& i == id && k == access_hash && r == file_reference@ && d == dc_id && n == size && t
                == duration && v == is_voice
            &&& filename is None ==> f is None
            &&& filename matches Some(x) ==> f == Some(x@)
            &&& waveform is None ==> w is None
            &&& waveform matches Some(x) ==> w == Some(x@)
        },
        m is Unsupported <==> m@ is Unsupported,
{
}

/// A message and a dialog, as they are read.
pub proof fn a_message_is_read_as_it_is(m: proto::Message, d: proto::Dialog)
    ensures
        m@.id == m.id,
        m@.peer == m.peer,
        m@.out == m.out,
        m@.date == m.date,
        m@.text == m.text@,
        m@.service == m.service,
        m.media is None ==> m@.media is None,
        m.media matches Some(x) ==> m@.media == Some(x@),
        d@.peer == d.peer,
        d@.top_message == d.top_message,
        d@.unread == d.unread,
        d@.access_hash == d.access_hash,
        d.top is None ==> d@.top is None,
        d.top matches Some(x) ==> d@.top == Some(x@),
{
}

/// A page, as it is read: its dialogs and its messages are in their order.
pub proof fn a_page_is_read_as_it_is(p: proto::Dialogs, i: int)
    ensures
        p@.total == p.total,
        p@.dialogs.len() == p.dialogs@.len(),
        0 <= i < p.dialogs@.len() ==> p@.dialogs[i] == p.dialogs@[i]@,
        p@.messages.len() == p.messages@.len(),
        0 <= i < p.messages@.len() ==> p@.messages[i] == p.messages@[i]@,
        p@.names.len() == p.names@.len(),
{
}

// ---- what is held ---------------------------------------------------------------------------------

/// An attachment, as it is held.
pub proof fn an_attachment_is_held_as_it_is(m: model::Media)
    ensures
        m matches model::Media::Photo {
            id,
            access_hash,
            file_reference,
            dc_id,
            thumb_size,
            size,
            preview,
        } ==> m@ == (model::MediaView::Photo {
            id,
            access_hash,
            file_reference: file_reference@,
            dc_id,
            thumb_size: thumb_size@,
            size,
            preview: match preview {
                Some(b) => Some(b@),
                None => None,
            },
        }),
        m matches model::Media::Voice {
            id,
            access_hash,
            file_reference,
            dc_id,
            duration,
            waveform,
            size,
        } ==> m@ == (model::MediaView::Voice {
            id,
            access_hash,
            file_reference: file_reference@,
            dc_id,
            duration,
            waveform: match waveform {
                Some(b) => Some(b@),
                None => None,
            },
            size,
        }),
        m matches model::Media::Audio {
            id,
            access_hash,
            file_reference,
            dc_id,
            filename,
            duration,
            size,
        } ==> m@ == (model::MediaView::Audio {
            id,
            access_hash,
            file_reference: file_reference@,
            dc_id,
            filename: filename@,
            duration,
            size,
        }),
        m matches model::Media::File { id, access_hash, file_reference, dc_id, filename, size } ==> m@
            == (model::MediaView::File {
            id,
            access_hash,
            file_reference: file_reference@,
            dc_id,
            filename: filename@,
            size,
        }),
        m matches model::Media::Sticker { id, access_hash, file_reference, dc_id, alt, preview } ==> m@
            == (model::MediaView::Sticker {
            id,
            access_hash,
            file_reference: file_reference@,
            dc_id,
            alt: alt@,
            preview: match preview {
                Some(b) => Some(b@),
                None => None,
            },
        }),
        m is Unknown <==> m@ is Unknown,
{
}

/// A message, a chat and a list, as they are held: what a chat holds is in its order.
pub proof fn a_chat_is_held_as_it_is(m: Message, c: Chat, s: Store, i: int)
    ensures
        m@.id == m.id,
        m@.text == m.text@,
        m@.outgoing == m.outgoing,
        m@.time == m.time@,
        m@.state == m.state,
        m.media is None ==> m@.media is None,
        m.media matches Some(x) ==> m@.media == Some(x@),
        c@.peer == c.peer,
        c@.oldest == c.oldest,
        c@.complete == c.complete,
        c@.windowed == c.windowed,
        c@.loading == c.loading,
        c@.name == c.name@,
        c@.time == c.time@,
        c@.unread == c.unread,
        c@.last_outgoing == c.last_outgoing,
        c@.messages.len() == c.messages@.len(),
        0 <= i < c.messages@.len() ==> c@.messages[i] == c.messages@[i]@,
        s@.chats.len() == s.chats@.len(),
        0 <= i < s.chats@.len() ==> s@.chats[i] == s.chats@[i]@,
        s@.status == s.status@,
        s@.dialogs_loading == s.dialogs_loading,
        s@.dialogs_complete == s.dialogs_complete,
        s@.dialog_offset_date == s.dialog_offset_date,
        s@.dialog_offset_id == s.dialog_offset_id,
        s@.dialog_offset_peer == s.dialog_offset_peer,
{
}

/// A field, as it is held.
pub proof fn a_field_is_held_as_it_is(f: Field)
    ensures
        f@.text == f.text@,
        f@.cursor == f.cursor,
        f@.masked == f.masked,
        f@.limit == f.limit,
{
}

/// The login, as it is held.
pub proof fn a_login_is_held_as_it_is(l: Login)
    ensures
        l@.phone == l.phone@,
        l@.api_id == l.api_id,
        l@.api_hash_empty == l.api_hash_empty,
        l@.code_sent == l.code_sent,
        l@.password_needed == l.password_needed,
        l@.authorized == l.authorized,
        l@.status == l.status,
        l@.connected == l.connected,
        l.screen matches login::Screen::Phone { field, error } ==> l@.screen
            == (login::ScreenView::Phone {
            field: field@,
            error: match error {
                Some(e) => Some(e@),
                None => None,
            },
        }),
        l.screen matches login::Screen::Code { field, length, error } ==> l@.screen
            == (login::ScreenView::Code {
            field: field@,
            length,
            error: match error {
                Some(e) => Some(e@),
                None => None,
            },
        }),
        l.screen matches login::Screen::Password { field, hint, error } ==> l@.screen
            == (login::ScreenView::Password {
            field: field@,
            hint: hint@,
            error: match error {
                Some(e) => Some(e@),
                None => None,
            },
        }),
        l.screen matches login::Screen::Waiting(words) ==> l@.screen == login::ScreenView::Waiting(
            words,
        ),
{
}

/// A conversation and a bubble of it, as they are held.
pub proof fn a_conversation_is_held_as_it_is(c: Conversation, l: Laid, i: int)
    ensures
        c@.chat == c.chat,
        c@.state == c.state,
        c@.composer == c.composer@,
        c@.focus == c.focus,
        c@.link == c.link,
        c.note is None ==> c@.note is None,
        c.note matches Some(n) ==> c@.note == Some(n@),
        c.transcript is None ==> c@.transcript is None,
        c.transcript matches Some(t) ==> {
            &&& c@.transcript matches Some(v)
            &&& v.width == t.width
            &&& v.count == t.count
            &&& v.laid.len() == t.laid@.len()
            &&& 0 <= i < t.laid@.len() ==> v.laid[i] == t.laid@[i]@
        },
        l@.lines == l.lines@,
        l@.bubble_w == l.bubble_w,
        l@.height == l.height,
        l@.time_inline == l.time_inline,
        l@.gap == l.gap,
        l@.media_h == l.media_h,
        l@.links == l.links@,
{
}

/// The application, as it is held.
pub proof fn an_application_is_held_as_it_is(a: App)
    ensures
        a.driver is None ==> a@.driver is None,
        a.driver matches Some(d) ==> a@.driver == Some(d@),
        a@.store == a.store@,
        a@.login == a.login@,
        a@.should_exit == a.should_exit,
        a@.opening_chat == a.opening_chat,
        a@.dialogs_from_top == a.dialogs_from_top,
        a.pending is None ==> a@.pending is None,
        a.pending matches Some(p) ==> a@.pending == Some(p@),
        a@.decoding == a.decoding,
        a@.decode_src == a.decode_src,
        a@.decode_watchdog == a.decode_watchdog,
        a@.lang == a.lang,
        a.screen matches app::Screen::Chats(l) ==> a@.screen == ScreenView::Chats(l.state),
        a.screen matches app::Screen::Conversation(c) ==> a@.screen == ScreenView::Conversation(c@),
        a.screen is Login <==> a@.screen is Login,
        a.screen matches app::Screen::Viewer(i) ==> a@.screen == ScreenView::Viewer(i),
{
}

/// The machine above the links, and a link, as they are held.
pub proof fn a_driver_is_held_as_it_is(d: Driver, l: Link)
    ensures
        d@.home == d.home,
        d@.file_dc == d.file_dc,
        d@.file_req_on_dc == d.file_req_on_dc,
        d@.queued == d.queued,
        d@.pending_call == d.pending_call@,
        d@.persisted == d.persisted,
        d@.connect_timer == d.connect_timer,
        d@.reconnect_timer == d.reconnect_timer,
        d@.stuck_timer == d.stuck_timer,
        d@.retries == d.retries,
        d@.status == d.status,
        l@.dc == l.dc,
        l@.resumed == l.resumed,
        l@.phase == l.phase,
        l@.open == l.open,
        l@.todo == l.todo@,
        l@.inited == l.inited,
        l.last_call is None ==> l@.last_call is None,
        l.last_call matches Some((b, t)) ==> l@.last_call == Some((b@, t)),
        l@.clock_fixed == l.clock_fixed,
        l@.resends == l.resends,
        l@.work_is_caller == l.work_is_caller,
        l@.retried_bearer == l.retried_bearer,
        l@.notes.len() == l.notes@.len(),
{
}

// ---- what is asked for ----------------------------------------------------------------------------

/// A request for a file, and a download, as they are made.
pub proof fn a_download_is_what_it_says(r: FileRequest, p: PendingFile)
    ensures
        app::request_view(r).chat == r.chat,
        app::request_view(r).is_photo == r.is_photo,
        app::request_view(r).id == r.id,
        app::request_view(r).access_hash == r.access_hash,
        app::request_view(r).file_reference == r.file_reference@,
        app::request_view(r).thumb_size == r.thumb_size@,
        app::request_view(r).offset == r.offset,
        p@.msg_id == p.msg_id,
        p@.kind == p.kind,
        p@.dc == p.dc,
        p@.req == app::request_view(p.req),
        p@.got == p.got@,
{
}

/// A wish, as it is made.
pub proof fn a_wish_is_what_it_says(w: Wanted)
    ensures
        w matches Wanted::MoreDialogs { date, id, after } ==> w@ == (WantedView::MoreDialogs {
            date,
            id,
            after,
        }),
        w is TopDialogs <==> w@ is TopDialogs,
        w is FirstDialogs <==> w@ is FirstDialogs,
        w matches Wanted::Newest { chat, peer, noted } ==> w@ == (WantedView::Newest {
            chat,
            peer,
            noted,
        }),
        w matches Wanted::Older { chat, peer, offset } ==> w@ == (WantedView::Older {
            chat,
            peer,
            offset,
        }),
        w matches Wanted::Message { chat, peer, text } ==> w@ == (WantedView::Message {
            chat,
            peer,
            text: text@,
        }),
        w matches Wanted::Again { chat, peer, message } ==> w@ == (WantedView::Again {
            chat,
            peer,
            message,
        }),
        w matches Wanted::First(p) ==> w@ == WantedView::First(p@),
        w matches Wanted::Next(p) ==> w@ == WantedView::Next(p@),
        w matches Wanted::Elsewhere { req, dc } ==> w@ == (WantedView::Elsewhere {
            req: app::request_view(req),
            dc,
        }),
{
}

/// A thing to do, as it is asked for.
pub proof fn a_deed_is_what_it_says(d: Do)
    ensures
        d matches Do::Ask(w) ==> d@ == DoView::Ask(w@),
        d matches Do::Machine(a) ==> d@ == DoView::Machine(a@),
        d matches Do::ReadTail(i) ==> d@ == DoView::ReadTail(i),
        d matches Do::Write(f) ==> d@ == DoView::Write(f.name@, f.bytes@),
        d matches Do::Previews { chat, selected } ==> d@ == (DoView::Previews { chat, selected }),
        d matches Do::LookUp { chat, message, id } ==> d@ == (DoView::LookUp { chat, message, id }),
        d matches Do::Keep { id, data } ==> d@ == (DoView::Keep { id, data: data@ }),
        d matches Do::Decode { chat, id, data } ==> d@ == (DoView::Decode { chat, id, data: data@ }),
        d is ReleaseDecoder <==> d@ is ReleaseDecoder,
        d is DecodeTimer <==> d@ is DecodeTimer,
        d matches Do::CancelTimer(h) ==> d@ == DoView::CancelTimer(h),
        d matches Do::OpenLink(s) ==> d@ == DoView::OpenLink(s@),
        d matches Do::Copy(s) ==> d@ == DoView::Copy(s@),
        d is Bridge <==> d@ is Bridge,
        d matches Do::Log(on) ==> d@ == DoView::Log(on),
{
}

/// An action of a screen, as it is asked for.
pub proof fn an_action_is_what_it_says(a: LoginAction, c: ConvAction)
    ensures
        a matches LoginAction::SendCode(s) ==> a@ == LoginActionView::SendCode(s@),
        a matches LoginAction::SubmitCode(s) ==> a@ == LoginActionView::SubmitCode(s@),
        a matches LoginAction::SubmitPassword(b) ==> a@ == LoginActionView::SubmitPassword(b@),
        a is Resend <==> a@ is Resend,
        a is Back <==> a@ is Back,
        a is Nothing <==> a@ is Nothing,
        c is Back <==> c@ is Back,
        c matches ConvAction::Send(s) ==> c@ == ConvActionView::Send(s@),
        c is LoadMore <==> c@ is LoadMore,
        c matches ConvAction::OpenMedia(i) ==> c@ == ConvActionView::OpenMedia(i),
        c matches ConvAction::OpenLink(s) ==> c@ == ConvActionView::OpenLink(s@),
        c is Refresh <==> c@ is Refresh,
        c matches ConvAction::Copy(s) ==> c@ == ConvActionView::Copy(s@),
        c is Nothing <==> c@ is Nothing,
{
}

/// What a link asks for while it carries its steps out: an exponentiation keeps its base, its exponent
/// and its modulus, and a request its bytes and its tag.
pub proof fn a_step_is_what_it_says(d: DrainNext)
    ensures
        d matches DrainNext::Write(b) ==> d@ == DrainView::Write(b@),
        d matches DrainNext::Submit { base, exp, modulus } ==> d@ == (DrainView::Submit {
            base,
            exp,
            modulus,
        }),
        d matches DrainNext::Resend { body, tag } ==> d@ == (DrainView::Resend { body: body@, tag }),
        d is FixClock <==> d@ is FixClock,
        d matches DrainNext::Report(p, why) ==> d@ == DrainView::Report(p, why),
        d is Done <==> d@ is Done,
        d is Idle <==> d@ is Idle,
{
}

/// What the machine above the links reports and asks for, and what a link notes.
pub proof fn a_report_is_what_it_says(o: Outcome, e: Effect, n: Note)
    ensures
        o is Nothing <==> o@ is Nothing,
        o matches Outcome::Answered(tag, body) ==> o@ == OutcomeView::Answered(tag, body),
        o matches Outcome::RequestFailed(tag, text) ==> o@ == OutcomeView::RequestFailed(tag, text@),
        o is Redraw <==> o@ is Redraw,
        o is Authorized <==> o@ is Authorized,
        o matches Outcome::Disconnected(why) ==> o@ == OutcomeView::Disconnected(why),
        e matches Effect::Flush(v) ==> e@ == FxView::Flush(v@),
        !(e is Flush) ==> e@ == FxView::Do(e),
        n is Flag <==> n@ is Flag,
        n matches Note::Num(v) ==> n@ == NoteView::Num(v as int),
        n matches Note::Text(s) ==> n@ == NoteView::Text(s@),
{
}

/// A message of a screen, as it is sent.
pub proof fn a_message_is_what_it_says(m: mvu::Msg, c: conv_decl::Msg)
    ensures
        m matches mvu::Msg::Chats(x) ==> m@ == mvu::MsgView::Chats(x),
        m matches mvu::Msg::Login(x) ==> m@ == mvu::MsgView::Login(x),
        m matches mvu::Msg::Conv(x) ==> m@ == mvu::MsgView::Conv(x@),
        m matches mvu::Msg::Viewer(x) ==> m@ == mvu::MsgView::Viewer(x),
        m matches mvu::Msg::Menu(x) ==> m@ == mvu::MsgView::Menu(x),
        m is Exit <==> m@ is Exit,
        m is Touched <==> m@ is Touched,
        c is Back <==> c@ is Back,
        c is Send <==> c@ is Send,
        c is Activate <==> c@ is Activate,
        c is Refresh <==> c@ is Refresh,
        c is LoadMore <==> c@ is LoadMore,
        c matches conv_decl::Msg::OpenMedia(i) ==> c@ == conv_decl::MsgView::OpenMedia(i),
        c matches conv_decl::Msg::OpenLink(s) ==> c@ == conv_decl::MsgView::OpenLink(s@),
        c matches conv_decl::Msg::Copy(s) ==> c@ == conv_decl::MsgView::Copy(s@),
        c matches conv_decl::Msg::SendTaken(s) ==> c@ == conv_decl::MsgView::SendTaken(s@),
        c is ViewStale <==> c@ is ViewStale,
{
}

/// Things that are done, sent, said or painted one after another keep their number and their order.
pub proof fn what_comes_in_order_stays_in_order(
    d: Seq<Do>,
    e: Seq<Effect>,
    o: Seq<Op>,
    n: Seq<proto::Named>,
    m: Seq<Message>,
    c: Seq<Chat>,
    i: int,
)
    ensures
        app::do_views(d).len() == d.len(),
        0 <= i < d.len() ==> app::do_views(d)[i] == d[i]@,
        driver::fx_views(e).len() == e.len(),
        0 <= i < e.len() ==> driver::fx_views(e)[i] == e[i]@,
        ui::op_views(o).len() == o.len(),
        0 <= i < o.len() ==> ui::op_views(o)[i] == o[i]@,
        proto::name_views(n).len() == n.len(),
        0 <= i < n.len() ==> proto::name_views(n)[i] == (n[i].peer, n[i].title@),
        model::message_views(m).len() == m.len(),
        0 <= i < m.len() ==> model::message_views(m)[i] == m[i]@,
        model::chat_views(c).len() == c.len(),
        0 <= i < c.len() ==> model::chat_views(c)[i] == c[i]@,
        forall|w: Option<Wanted>|
            (w is None ==> #[trigger] app::wanted_opt(w) is None) && (w matches Some(x)
                ==> app::wanted_opt(w) == Some(x@)),
        app::asking(None).len() == 0,
        forall|w: WantedView| #[trigger] app::asking(Some(w)) == seq![DoView::Ask(w)],
{
}

// ---- what is shown --------------------------------------------------------------------------------

/// A row and a form, as they are described.
pub proof fn a_description_is_what_it_says(
    r: ChatRow,
    m: mvu::Model,
    s: login_decl::State,
    f: login_decl::Form,
    o: selfcheck::Outcome,
)
    ensures
        r@.initials == r.initials@,
        r@.name == r.name@,
        r@.time == r.time@,
        r@.preview == r.preview@,
        r@.unread == r.unread,
        r@.last_outgoing == r.last_outgoing,
        r@.color_seed == r.color_seed,
        m@.app == m.app@,
        m@.last_selected == m.last_selected,
        m@.on_menu == m.on_menu,
        m@.menu_selected == m.menu_selected,
        m@.debug_log == m.debug_log,
        s@.status == s.status@,
        s@.connected == s.connected,
        s.error is None ==> s@.error is None,
        s.error matches Some(e) ==> s@.error == Some(e@),
        s.which matches login_decl::Which::Phone { credentials_missing } ==> s@.which
            == (login_decl::WhichView::Phone { credentials_missing }),
        s.which matches login_decl::Which::Code { length } ==> s@.which
            == (login_decl::WhichView::Code { length }),
        s.which matches login_decl::Which::Password { hint, masked } ==> s@.which
            == (login_decl::WhichView::Password { hint: hint@, masked }),
        s.which matches login_decl::Which::Waiting(w) ==> s@.which == login_decl::WhichView::Waiting(
            w@,
        ),
        f@.title == f.title,
        f@.indent == f.indent,
        f@.width == f.width,
        f@.prefix == f.prefix,
        f@.placeholder == f.placeholder,
        f@.masked == f.masked,
        f@.eye == f.eye,
        f.line is None ==> f@.line is None,
        f.line matches Some(l) ==> f@.line == Some(l@),
        f.hint is None ==> f@.hint is None,
        f.hint matches Some(h) ==> f@.hint == Some((h.text@, h.around)),
        f.status is None ==> f@.status is None,
        f.status matches Some(h) ==> f@.status == Some((h.text@, h.around)),
        o is Passed <==> o@ is Passed,
        o matches selfcheck::Outcome::Failed(step, why) ==> o@ == selfcheck::OutcomeView::Failed(
            step,
            why@,
        ),
{
}

/// A stroke of the brush, as it is asked for.
pub proof fn a_stroke_is_what_it_says(o: Op)
    ensures
        o is Clear <==> o@ is Clear,
        o matches Op::TitleBar { rect, title, detail } ==> o@ == (OpView::TitleBar {
            rect,
            title: title@,
            detail: match detail {
                Some(d) => Some(d@),
                None => None,
            },
        }),
        o matches Op::SoftkeyBar { rect, labels } ==> o@ == (OpView::SoftkeyBar {
            rect,
            labels: labels@,
        }),
        o matches Op::Placeholder { rect, text } ==> o@ == (OpView::Placeholder { rect, text: text@ }),
        o matches Op::Text { rect, text, font, ink, align } ==> o@ == (OpView::Text {
            rect,
            text: text@,
            font,
            ink,
            align,
        }),
        o matches Op::TextAt { x, baseline, text, font, ink } ==> o@ == (OpView::TextAt {
            x,
            baseline,
            text: text@,
            font,
            ink,
        }),
        o matches Op::Band { rect } ==> o@ == (OpView::Band { rect }),
        o matches Op::Round { rect, surface } ==> o@ == (OpView::Round { rect, surface }),
        o matches Op::Stroke { rect, ink } ==> o@ == (OpView::Stroke { rect, ink }),
        o matches Op::Fill { rect, ink } ==> o@ == (OpView::Fill { rect, ink }),
        o matches Op::Rule { y, x0, x1, ink } ==> o@ == (OpView::Rule { y, x0, x1, ink }),
        o matches Op::Marked { x, y0, y1, text, from, to } ==> o@ == (OpView::Marked {
            x,
            y0,
            y1,
            text: text@,
            from,
            to,
        }),
        o matches Op::Scrollbar { rect } ==> o@ == (OpView::Scrollbar { rect }),
        o matches Op::Clip { rect } ==> o@ == (OpView::Clip { rect }),
        o is Unclip <==> o@ is Unclip,
        o matches Op::Avatar { rect, initials, seed } ==> o@ == (OpView::Avatar {
            rect,
            initials: initials@,
            seed,
        }),
        o matches Op::Selected { rect } ==> o@ == (OpView::Selected { rect }),
        o matches Op::Badge { right, top, label, selected } ==> o@ == (OpView::Badge {
            right,
            top,
            label: label@,
            selected,
        }),
{
}

} // verus!
