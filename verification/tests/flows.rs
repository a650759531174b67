//! What the application asks for, and what becomes of the answers.

use telegram::app::{
    App, DecodeProgress, DecodeStart, Decoded, Do, Parse, Raw, RawNext, Reply, Screen, Wanted, CHUNK,
    MAX_FILE_BYTES,
};
use telegram::app_run::{parse_for, Asked};
use telegram::cache_files::save_tail;
use telegram::conv::Conversation;
use telegram::driver::{
    Driver, Effect, Event, Expected, Home, Outcome, TAG_DIALOGS, TAG_FILE, TAG_HISTORY, TAG_REFRESH,
    TAG_SEND,
};
use telegram::labels::{media_label, mmss, size_fmt, Atlas};
use telegram::login::{Action, LoginAction};
use telegram::model::{Chat, Delivery, Media, Message, PeerRef, Store};
use telegram::proto;
use telegram::text::{chars_of, ends_with, push_hex, push_i64, push_u64, same, starts_with, string_of};
use telegram::ui::{Field, Handled};

const NOW: i64 = 1_700_000_000;

fn someone() -> PeerRef {
    PeerRef { kind: proto::Kind::User, id: 7, access_hash: 9 }
}

fn message(id: i32, media: Option<Media>) -> Message {
    Message {
        id,
        text: format!("m{id}"),
        outgoing: false,
        time: "10:00".to_string(),
        state: Delivery::Read,
        media,
    }
}

fn photo(dc_id: i32) -> Media {
    Media::Photo {
        id: 77,
        access_hash: 5,
        file_reference: vec![1],
        dc_id,
        thumb_size: "m".to_string(),
        size: 1000,
        preview: None,
    }
}

fn a_chat(messages: Vec<Message>) -> Chat {
    Chat {
        peer: Some(someone()),
        name: "Ana".to_string(),
        unread: 3,
        oldest: 1,
        messages,
        ..Default::default()
    }
}

/// An application on its list, with a session behind it.
fn online(chats: Vec<Chat>) -> App {
    let mut app = App::new(Store { chats, ..Default::default() });
    let mut d = Driver::new();
    d.on_event(Event::Started { routes: 1, link: Some(Home { dc: 2, resumed: false }) }, true);
    app.driver = Some(d);
    app
}

fn page(ids: &[i32]) -> proto::Dialogs {
    let p = proto::Peer { kind: proto::Kind::User, id: 7 };
    proto::Dialogs {
        dialogs: Vec::new(),
        messages: ids
            .iter()
            .map(|id| proto::Message {
                id: *id,
                peer: p,
                out: false,
                date: 0,
                text: format!("m{id}"),
                service: false,
                media: None,
            })
            .collect(),
        names: Vec::new(),
        total: None,
    }
}

fn in_front(app: &App) -> &Conversation {
    match &app.screen {
        Screen::Conversation(c) => c,
        _ => panic!("a conversation is in front"),
    }
}

#[test]
fn a_cold_conversation_waits_for_its_first_page() {
    let mut app = online(vec![a_chat(Vec::new())]);
    let fx = app.open_chat(0, None);
    assert_eq!(app.in_conversation(), None, "not on a single bubble");
    assert_eq!(app.opening_chat, Some(0));
    assert!(fx.iter().any(|d| matches!(d, Do::Ask(Wanted::Older { chat: 0, .. }))));
    app.on_answer(TAG_HISTORY, Reply::History(Some(page(&[3, 2, 1]))), NOW, 0);
    assert_eq!(app.in_conversation(), Some(0));
    assert_eq!(app.store.chats[0].messages.len(), 3);
}

#[test]
fn a_conversation_on_disk_opens_at_once() {
    let file = save_tail(&a_chat(vec![message(1, None), message(2, None)])).unwrap();
    let mut app = online(vec![a_chat(Vec::new())]);
    let fx = app.open_chat(0, Some(&file.bytes));
    assert_eq!(app.in_conversation(), Some(0));
    assert_eq!(app.store.chats[0].unread, 0);
    assert!(fx.iter().any(|d| matches!(d, Do::Ask(Wanted::Newest { noted: false, .. }))));
}

#[test]
fn a_page_above_keeps_the_reader_on_the_same_bubble() {
    let mut app = online(vec![a_chat(vec![message(4, None), message(5, None)])]);
    app.store.chats[0].oldest = 4;
    let mut conv = Conversation::new(0);
    conv.state.selected = 1;
    app.screen = Screen::Conversation(conv);
    app.on_answer(TAG_HISTORY, Reply::History(Some(page(&[3, 2]))), NOW, 0);
    assert_eq!(in_front(&app).state.selected, 3);
    assert_eq!(app.store.chats[0].messages[3].id, 5);
}

#[test]
fn a_page_from_the_top_replaces_and_one_from_below_appends() {
    let listing = |ids: &[i64]| proto::Dialogs {
        dialogs: ids
            .iter()
            .map(|id| proto::Dialog {
                peer: proto::Peer { kind: proto::Kind::User, id: *id },
                top_message: 1,
                unread: 0,
                top: None,
                access_hash: 0,
            })
            .collect(),
        messages: Vec::new(),
        names: Vec::new(),
        total: None,
    };
    let mut app = online(vec![a_chat(Vec::new())]);
    app.dialogs_from_top = true;
    let fx = app.on_answer(TAG_DIALOGS, Reply::Dialogs(Some(listing(&[1, 2]))), NOW, 0);
    assert_eq!(app.store.chats.len(), 2);
    assert!(fx.iter().any(|d| matches!(d, Do::Write(f) if f.name == "chats.bin")));
    app.dialogs_from_top = false;
    app.on_answer(TAG_DIALOGS, Reply::Dialogs(Some(listing(&[3]))), NOW, 0);
    assert_eq!(app.store.chats.len(), 3);
    app.store.dialogs_loading = true;
    app.on_answer(TAG_DIALOGS, Reply::Dialogs(None), NOW, 0);
    assert!(!app.store.dialogs_loading, "a page that cannot be read ends the wait");
}

#[test]
fn one_page_of_the_list_at_a_time() {
    let mut app = online(vec![a_chat(Vec::new())]);
    let w = app.load_more_dialogs().expect("a page is asked for");
    assert!(matches!(w, Wanted::MoreDialogs { .. }));
    assert!(app.store.dialogs_loading);
    assert!(app.load_more_dialogs().is_none());
    assert!(matches!(app.perform(&w, false), Asked::Call(_)));
}

#[test]
fn a_sent_message_is_acknowledged_once() {
    let mut app = online(vec![a_chat(Vec::new())]);
    let w = app.send(0, "oi".to_string(), "10:00".to_string()).expect("there is a link");
    assert!(app.store.chats[0].messages.is_empty(), "it shows once it is known to have gone");
    app.on_sent(w, true, NOW, 0);
    assert_eq!(app.store.chats[0].messages[0].state, Delivery::Pending);
    assert_eq!(app.store.chats[0].messages[0].time, "22:13");
    app.on_answer(TAG_SEND, Reply::Sent, NOW, 0);
    assert_eq!(app.store.chats[0].messages[0].state, Delivery::Sent);
}

fn asked_file(fx: &mut Vec<Do>) -> Option<Wanted> {
    let at = fx.iter().position(|d| matches!(d, Do::Ask(_)))?;
    match fx.remove(at) {
        Do::Ask(w) => Some(w),
        _ => None,
    }
}

#[test]
fn a_photo_is_fetched_chunk_by_chunk_and_decoded() {
    let mut app = online(vec![a_chat(vec![message(1, Some(photo(2)))])]);
    app.screen = Screen::Conversation(Conversation::new(0));
    let fx = app.download_media(0, 0);
    assert_eq!(fx, vec![Do::LookUp { chat: 0, message: 0, id: 77 }]);
    let mut fx = app.on_cached(0, 0, None);
    let w = asked_file(&mut fx).expect("not at home, so from the server");
    assert!(matches!(app.perform(&w, false), Asked::Chunk(Expected::IfSent, _)));
    app.on_sent(w, true, NOW, 0);
    assert_eq!(app.store.status, "baixando...");

    let mut fx = app.on_answer(TAG_FILE, Reply::File(Some(vec![7; CHUNK])), NOW, 0);
    let w = asked_file(&mut fx).expect("a full chunk has another after it");
    match &w {
        Wanted::Next(p) => assert_eq!((p.req.offset, p.got.len()), (CHUNK as i64, CHUNK)),
        other => panic!("expected the next chunk, got {other:?}"),
    }
    app.on_sent(w, true, NOW, 0);
    let fx = app.on_answer(TAG_FILE, Reply::File(Some(vec![8; 10])), NOW, 0);
    assert!(fx.iter().any(
        |d| matches!(d, Do::Decode { chat: 0, id: 77, data } if data.len() == CHUNK + 10)
    ));
    assert!(app.pending.is_none());

    let fx = app.on_decode_begun(0, &vec![0xff, 0xd8], DecodeStart::Begun);
    assert!(fx.contains(&Do::DecodeTimer));
    app.on_decode_timer(Some(5));
    assert!(app.owns_timer(5));
    let fx = app.on_image_decoded(Decoded::Picture);
    assert!(fx.contains(&Do::CancelTimer(5)));
    assert!(fx.contains(&Do::ReleaseDecoder));
    assert!(matches!(app.screen, Screen::Viewer(0)));
    assert!(!app.owns_timer(5));
}

#[test]
fn a_photo_kept_at_home_is_not_asked_for() {
    let mut app = online(vec![a_chat(vec![message(1, Some(photo(2)))])]);
    app.download_media(0, 0);
    let mut fx = app.on_cached(0, 0, Some(vec![1, 2, 3]));
    assert!(asked_file(&mut fx).is_none());
    assert!(fx.iter().any(|d| matches!(d, Do::Decode { .. })));
}

#[test]
fn a_download_is_bounded() {
    let mut app = online(vec![a_chat(vec![message(1, Some(photo(2)))])]);
    app.download_media(0, 0);
    let mut fx = app.on_cached(0, 0, None);
    let w = asked_file(&mut fx).unwrap();
    app.on_sent(w, true, NOW, 0);
    let mut gathered = 0;
    loop {
        let mut fx = app.on_answer(TAG_FILE, Reply::File(Some(vec![7; CHUNK])), NOW, 0);
        gathered += CHUNK;
        match asked_file(&mut fx) {
            Some(w) => app.on_sent(w, true, NOW, 0),
            None => break,
        }
        assert!(gathered <= MAX_FILE_BYTES);
    }
    assert!(app.pending.is_none());
}

#[test]
fn a_refused_download_moves_or_is_refreshed() {
    let mut app = online(vec![a_chat(vec![message(1, Some(photo(2)))])]);
    app.download_media(0, 0);
    let mut fx = app.on_cached(0, 0, None);
    let w = asked_file(&mut fx).unwrap();
    app.on_sent(w, true, NOW, 0);
    let moved = Outcome::RequestFailed(TAG_FILE, "FILE_MIGRATE_4".to_string());
    let (h, mut fx) = app.on_outcome(&moved, Some(4));
    assert_eq!(h, Handled::Consumed);
    assert!(matches!(asked_file(&mut fx), Some(Wanted::Elsewhere { dc: 4, .. })));
    let expired = Outcome::RequestFailed(TAG_FILE, "FILE_REFERENCE_EXPIRED".to_string());
    let (_, mut fx) = app.on_outcome(&expired, None);
    assert!(matches!(asked_file(&mut fx), Some(Wanted::Again { chat: 0, message: 1, .. })));
    let other = Outcome::RequestFailed(TAG_FILE, "LOCATION_INVALID".to_string());
    let (_, fx) = app.on_outcome(&other, None);
    assert!(fx.is_empty());
    assert_eq!(app.store.status, "download: LOCATION_INVALID");
}

#[test]
fn a_decode_that_hangs_is_given_back() {
    let mut app = online(vec![a_chat(vec![message(1, Some(photo(2)))])]);
    app.on_decode_begun(0, &vec![0xff, 0xd8], DecodeStart::Begun);
    app.on_decode_timer(Some(9));
    let p = DecodeProgress {
        native_w: 320,
        native_h: 240,
        frames: 1,
        factor: 1,
        active: true,
        mode: 0,
        frame_flags: 0,
        continues: 2,
    };
    let fx = app.on_decode_stuck(Some(p));
    assert!(fx.contains(&Do::ReleaseDecoder));
    assert!(app.decoding.is_none());
    let fx = app.on_decode_begun(0, &vec![1], DecodeStart::Refused(-5));
    assert!(!fx.contains(&Do::DecodeTimer));
}

#[test]
fn signing_in_asks_for_the_list_from_the_top() {
    let mut app = online(Vec::new());
    app.screen = Screen::Login;
    let (_, fx) = app.on_outcome(&Outcome::Authorized, None);
    assert_eq!(fx, vec![Do::Ask(Wanted::FirstDialogs), Do::Bridge]);
    assert!(matches!(app.screen, Screen::Chats(_)));
    assert!(app.dialogs_from_top);
}

#[test]
fn a_lost_connection_is_said_on_the_login() {
    let mut app = App::mock_login();
    let (h, _) = app.on_outcome(&Outcome::Disconnected("sem rede"), None);
    assert_eq!(h, Handled::Consumed);
    match &app.login.screen {
        telegram::login::Screen::Phone { error, .. } => {
            assert_eq!(error.as_deref(), Some("sem rede"))
        }
        _ => panic!("the phone screen is up"),
    }
    assert_eq!(app.on_outcome(&Outcome::Nothing, None).0, Handled::Ignored);
}

#[test]
fn a_login_step_goes_out_through_the_driver() {
    let (mut app, fx) = App::login(1, "abc", None);
    assert_eq!(fx.len(), 1);
    assert!(matches!(fx[0], Effect::SetTimer(_, 150)));
    let fx = app.on_machine(
        LoginAction::SendCode("+55".to_string()),
        Action::Call { body: vec![1], tag: 1 },
    );
    assert!(fx.is_empty());
    match &app.login.screen {
        telegram::login::Screen::Phone { error, .. } => {
            assert_eq!(error.as_deref(), Some("sem conexão"), "rather than waiting for nothing")
        }
        _ => panic!("the error shows on the phone screen"),
    }
}

#[test]
fn a_reply_is_parsed_by_the_tag_of_what_was_asked() {
    assert_eq!(parse_for(TAG_DIALOGS), Parse::Dialogs);
    assert_eq!(parse_for(TAG_HISTORY | 3), Parse::History);
    assert_eq!(parse_for(TAG_REFRESH), Parse::Again);
    assert_eq!(parse_for(TAG_FILE), Parse::File);
}

// ---- labels ---------------------------------------------------------------------------------------

#[test]
fn sizes_and_lengths_are_written_as_the_screen_shows_them() {
    assert_eq!(mmss(65), "1:05");
    assert_eq!(mmss(0), "0:00");
    assert_eq!(size_fmt(12_000), "11 KB");
    assert_eq!(size_fmt(3 * 1024 * 1024 + 512 * 1024), "3.5 MB");
}

#[test]
fn a_label_says_what_opening_costs() {
    let font = Atlas { glyphs: (' '..='~').collect() };
    let label = media_label(&photo(2), &font);
    assert!(label.starts_with("[Foto"), "{label}");
    let file = Media::File {
        id: 1,
        access_hash: 1,
        file_reference: Vec::new(),
        dc_id: 1,
        filename: "a.pdf".to_string(),
        size: 2048,
    };
    assert!(media_label(&file, &font).contains("a.pdf"));
    assert!(media_label(&file, &font).contains("2 KB"));
}

// ---- text -----------------------------------------------------------------------------------------

#[test]
fn numbers_are_written_out() {
    let mut s = String::new();
    push_u64(&mut s, u64::MAX);
    s.push(' ');
    push_i64(&mut s, i64::MIN);
    s.push(' ');
    push_hex(&mut s, 0xbeef, 6);
    assert_eq!(s, "18446744073709551615 -9223372036854775808 00beef");
}

#[test]
fn texts_are_compared_by_their_characters() {
    assert!(same("é", "é"));
    assert!(!same("a", "b"));
    assert!(starts_with("ação", "açã"));
    assert!(!starts_with("a", "ab"));
    assert!(ends_with("x.tmp", ".tmp"));
    assert_eq!(string_of(&chars_of("olá")), "olá");
}

#[test]
fn a_field_shows_stars_where_it_is_masked() {
    let mut f = Field::with_limit(8);
    f.text = "segredo".to_string();
    f.cursor = 3;
    assert_eq!(f.caret_text(), "seg");
    f.masked = true;
    assert_eq!(f.display(), "*******");
    assert_eq!(f.caret_text(), "***");
    assert_eq!(f.take(), "segredo");
    assert!(f.is_empty());
}

// ---- what the platform reports --------------------------------------------------------------------

#[test]
fn a_timer_goes_to_the_decode_it_belongs_to_or_to_the_driver() {
    let mut app = online(vec![a_chat(vec![message(1, Some(photo(2)))])]);
    app.on_decode_begun(0, &vec![0xff, 0xd8], DecodeStart::Begun);
    app.on_decode_timer(Some(9));
    match app.handle_raw(Raw::Timer { handle: 4, progress: None }, true) {
        RawNext::Driven(out, _) => assert_eq!(out, Outcome::Nothing),
        other => panic!("not the decode's, got {other:?}"),
    }
    assert!(app.decoding.is_some());
    match app.handle_raw(Raw::Timer { handle: 9, progress: None }, true) {
        RawNext::Done(h, fx) => {
            assert_eq!(h, Handled::Consumed);
            assert!(fx.contains(&Do::ReleaseDecoder));
        }
        other => panic!("the decode's own, got {other:?}"),
    }
    assert_eq!(app.store.status, "travou: decoder sumiu");
}

#[test]
fn a_decode_given_up_opens_nothing() {
    let mut app = online(vec![a_chat(vec![message(1, Some(photo(2)))])]);
    let raw = Raw::ImageDone { mine: false, decoded: Decoded::Picture };
    match app.handle_raw(raw, true) {
        RawNext::Done(h, fx) => assert!(h == Handled::Ignored && fx.is_empty()),
        other => panic!("it is nobody's, got {other:?}"),
    }
    assert!(matches!(app.screen, Screen::Chats(_)));
}

#[test]
fn without_a_driver_the_platform_is_not_listened_to() {
    let mut app = App::mock();
    match app.handle_raw(Raw::Other(Event::WorkerFree), false) {
        RawNext::Done(h, _) => assert_eq!(h, Handled::Ignored),
        other => panic!("there is no driver, got {other:?}"),
    }
    match app.handle_raw(Raw::Bridged, false) {
        RawNext::Done(h, _) => assert_eq!(h, Handled::Consumed),
        other => panic!("it is dealt with, got {other:?}"),
    }
    assert!(app.should_exit);
}

#[test]
fn refreshing_a_conversation_without_a_connection_says_so() {
    let mut app = App::new(Store { chats: vec![a_chat(Vec::new())], ..Default::default() });
    assert!(app.refresh_conversation(0, true).is_none());
    assert_eq!(app.store.status, "sem conexao");
}
