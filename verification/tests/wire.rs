//! The driver, the link under it, and the recorded handshake.

use telegram::driver::{
    error_label, Call, DcState, Driver, Effect, Event, Expected, FileRequest, Home, On, Outcome, Purpose,
    Queued, Request,
    DIALOG_PAGE, FILE_TIMEOUT_MS, HISTORY_PAGE, MAX_RETRIES, RECONNECT_DELAY_MS, REPLY_TIMEOUT_MS,
    TAG_DIALOGS, TAG_EXPORT, TAG_FILE, TAG_HISTORY, TAG_IMPORT, TAG_SEND,
};
use telegram::link::{
    api_hash, api_id, dc_address, describe, has_credentials, iap_to_start, load_iap, parse_i32,
    save_iap, start_dc, BearerEvent, ClientError, DrainNext, HandshakeError, Ipv4, Link, LinkEvent,
    Next, Note, Phase, Progress, Resent, SocketEvent, SocketStart, Step, TlError, Update,
    MAX_NOTES, MAX_RESENDS,
};
use telegram::login::{AuthError, Progress as LoginProgress};
use telegram::model::PeerRef;
use telegram::proto;
use telegram::selfcheck;
use telegram::selfcheck::{diff, first_difference, name_of, run, split, Replay, Tape};
use telegram::session_store::{Invalidate, LEN};

// ---- the driver -----------------------------------------------------------------------------------

#[test]
fn a_driver_with_no_link_reports_rather_than_panicking() {
    let mut d = Driver::new();
    assert_eq!(d.apply(LoginProgress::Nothing).0, Outcome::Redraw);
    assert_eq!(
        d.apply(LoginProgress::Call { body: vec![1], tag: 1 }).0,
        Outcome::Disconnected("sem conexão")
    );
    assert!(!d.is_connected(false));
}

fn a_request() -> FileRequest {
    FileRequest {
        chat: 0,
        is_photo: true,
        id: 1,
        access_hash: 2,
        file_reference: vec![3],
        thumb_size: "m".to_string(),
        offset: 0,
    }
}

#[test]
fn a_dc_of_zero_or_the_home_one_stays_on_the_session() {
    let d = Driver::new();
    assert_eq!(d.home_dc(), 0, "no link yet");
    assert!(d.is_home(0));
    assert!(d.is_home(d.home_dc()));
    assert!(!d.is_home(4));
}

#[test]
fn a_far_download_with_no_link_is_refused_rather_than_parked() {
    let mut d = Driver::new();
    assert_eq!(d.request_file_chunk(a_request(), 4, false).0, Expected::Refused);
    assert!(d.file_dc.is_none(), "no half-built connection is left behind");
}

#[test]
fn a_home_download_with_no_link_is_also_refused() {
    let mut d = Driver::new();
    assert_eq!(d.request_file_chunk(a_request(), 0, false).0, Expected::Refused);
    assert!(!d.file_req_on_dc);
}

#[test]
fn the_dc_state_only_reports_ready_as_usable() {
    assert!(!DcState::Connecting.is_usable());
    assert!(!DcState::AwaitingExport.is_usable());
    assert!(!DcState::Importing.is_usable());
    assert!(DcState::Ready.is_usable());
}

#[test]
fn work_is_held_rather_than_lost_when_there_is_no_worker() {
    let mut d = Driver::new();
    d.apply(LoginProgress::ModPow { base: vec![3], exp: vec![1], modulus: vec![7] });
    assert!(!d.is_connected(false));
}

/// A driver whose home link is up on the second data centre.
fn connected(resumed: bool) -> Driver {
    let mut d = Driver::new();
    d.on_event(Event::Started { routes: 1, link: Some(Home { dc: 2, resumed }) }, false);
    d
}

fn someone() -> PeerRef {
    PeerRef { kind: proto::Kind::User, id: 9, access_hash: 1 }
}

#[test]
fn a_stored_session_skips_the_login() {
    let mut d = connected(true);
    let (out, fx) = d.on_event(Event::Home(Progress::Authenticated), false);
    assert_eq!(out, Outcome::Authorized);
    assert_eq!(fx, vec![Effect::Persist]);
    assert_eq!(d.status, "conectado");
}

#[test]
fn a_request_the_link_could_not_send_goes_out_when_it_is_ready() {
    let mut d = connected(false);
    let call = d.request_history(3, someone(), 0).expect("there is a link");
    assert_eq!(call.tag, TAG_HISTORY | 3);
    assert_eq!(
        call.request,
        Request::History { peer: someone(), offset_id: 0, limit: HISTORY_PAGE }
    );
    d.on_event(Event::Called { call, sent: false }, true);
    assert_eq!(d.pending_call.len(), 1);
    let (_, fx) = d.on_event(Event::Home(Progress::Authenticated), true);
    assert!(fx.iter().any(|e| matches!(e, Effect::Flush(held) if held.len() == 1)));
    assert!(d.pending_call.is_empty());
}

#[test]
fn an_answer_comes_back_under_its_tag_and_the_logins_go_to_the_login() {
    let mut d = connected(false);
    let (out, _) =
        d.on_event(Event::Home(Progress::Reply { tag: TAG_DIALOGS, body: vec![7] }), true);
    assert_eq!(out, Outcome::Answered(TAG_DIALOGS, vec![7]));
    let (out, fx) = d.on_event(Event::Home(Progress::Reply { tag: 5, body: vec![8] }), true);
    assert_eq!(out, Outcome::Nothing);
    assert_eq!(fx, vec![Effect::LoginReply { tag: 5, body: vec![8] }]);
    let (out, _) = d.on_event(
        Event::Home(Progress::Failed { tag: TAG_SEND, code: 400, text: "PEER".to_string() }),
        true,
    );
    assert_eq!(out, Outcome::RequestFailed(TAG_SEND, "PEER".to_string()));
}

#[test]
fn a_download_elsewhere_asks_for_a_token_and_then_goes() {
    let mut d = connected(false);
    let (expected, fx) = d.request_file_chunk(a_request(), 4, false);
    assert_eq!(expected, Expected::IfOpened);
    assert!(expected.under_way(true));
    assert!(!expected.under_way(false));
    assert_eq!(fx, vec![Effect::OpenFileLink(4, a_request())]);
    d.on_event(Event::Opened { dc: 4, request: a_request(), ok: true }, true);
    let (_, fx) = d.on_event(Event::File(Progress::Authenticated), true);
    assert_eq!(
        fx,
        vec![Effect::Call(Call {
            on: On::Home,
            request: Request::ExportAuthorization { dc: 4 },
            tag: TAG_EXPORT | 4
        })]
    );
    let (_, fx) =
        d.on_event(Event::Home(Progress::Reply { tag: TAG_EXPORT | 4, body: vec![1] }), true);
    assert!(fx.contains(&Effect::ParseExport(vec![1])));
    let (_, fx) = d.on_event(Event::Exported(Some((11, vec![2, 3]))), true);
    assert!(fx.iter().any(|e| matches!(
        e,
        Effect::Call(c) if c.on == On::File
            && c.request == Request::ImportAuthorization { id: 11, bytes: vec![2, 3] }
    )));
    let (_, fx) =
        d.on_event(Event::File(Progress::Reply { tag: TAG_IMPORT | 4, body: vec![] }), true);
    assert!(fx.iter().any(|e| matches!(
        e,
        Effect::Call(c) if c.on == On::File && c.request == Request::File(a_request())
            && c.tag == TAG_FILE
    )));
    assert!(d.file_req_on_dc);
}

#[test]
fn a_lost_link_is_rebuilt_a_bounded_number_of_times() {
    let mut d = connected(false);
    d.retries = MAX_RETRIES - 1;
    let (out, fx) = d.on_event(Event::Home(Progress::Disconnected("caiu")), true);
    assert_eq!(out, Outcome::Nothing);
    assert!(fx.contains(&Effect::SetTimer(Purpose::Reconnect("caiu"), RECONNECT_DELAY_MS)));
    let mut d = connected(false);
    d.retries = MAX_RETRIES;
    let (out, _) = d.on_event(Event::Home(Progress::Disconnected("caiu")), true);
    assert_eq!(out, Outcome::Disconnected("caiu"));
}

#[test]
fn a_watch_is_long_for_a_file_and_short_for_the_rest() {
    let mut d = connected(false);
    let call = d.request_dialogs(0, 0, None).expect("there is a link");
    assert_eq!(
        call.request,
        Request::Dialogs { limit: DIALOG_PAGE, offset_date: 0, offset_id: 0, offset_peer: None }
    );
    let (_, fx) = d.on_event(Event::Called { call, sent: true }, true);
    assert!(fx.contains(&Effect::SetTimer(Purpose::Watch(TAG_DIALOGS), REPLY_TIMEOUT_MS)));
    let (expected, fx) = d.request_file_chunk(a_request(), 0, false);
    assert_eq!(expected, Expected::IfSent);
    let call = fx
        .into_iter()
        .find_map(|e| match e {
            Effect::Call(c) => Some(c),
            _ => None,
        })
        .expect("a chunk from home is a call");
    let (_, fx) = d.on_event(Event::Called { call, sent: true }, true);
    assert!(fx.contains(&Effect::SetTimer(Purpose::Watch(TAG_FILE), FILE_TIMEOUT_MS)));
}

#[test]
fn work_waits_for_the_worker_and_a_refusal_is_said() {
    let work = || Queued::ModPow { base: vec![3], exp: vec![1], modulus: vec![7] };
    let mut d = connected(false);
    d.on_event(Event::Submitted { work: work(), accepted: false, busy: true }, false);
    assert_eq!(d.queued, Some(work()));
    let (_, fx) = d.on_event(Event::WorkerFree, false);
    assert!(fx.contains(&Effect::Submit(work())));
    let mut d = connected(false);
    d.on_event(Event::Submitted { work: work(), accepted: false, busy: false }, false);
    assert_eq!(d.queued, None);
    assert_eq!(d.status, "não consegui calcular a chave");
}

#[test]
fn every_refusal_has_a_name_in_the_log() {
    assert_eq!(error_label(&AuthError::PhoneNumberInvalid), "PHONE_NUMBER_INVALID");
    assert_eq!(error_label(&AuthError::PasswordInvalid), "PASSWORD_HASH_INVALID");
    assert_eq!(error_label(&AuthError::FloodWait(1)), "FLOOD_WAIT");
    assert_eq!(error_label(&AuthError::Other(String::new())), "other");
}

// ---- the link -------------------------------------------------------------------------------------

#[test]
fn every_data_centre_has_its_address() {
    assert_eq!(dc_address(2), Ipv4 { a: 149, b: 154, c: 167, d: 51 });
    assert_eq!(dc_address(5), Ipv4 { a: 91, b: 108, c: 56, d: 130 });
    assert_eq!(start_dc(&None), 2);
}

#[test]
fn the_bearer_comes_before_the_socket() {
    let mut l = Link::open(2, false, Some(Step::Send(vec![1])));
    assert_eq!(l.phase, Phase::Bearer);
    assert!(matches!(l.drain(), DrainNext::Idle));
    match l.on_event(LinkEvent::Socket(SocketEvent::Other)) {
        Next::Report(Progress::Step(words), None) => assert_eq!(words, "aguardando rede"),
        other => panic!("there is no socket yet, got {other:?}"),
    }
    l.on_event(LinkEvent::Bearer(BearerEvent::Up { iap: 5, socket: SocketStart::Started }));
    assert_eq!(l.phase, Phase::Connecting);
    l.on_event(LinkEvent::Socket(SocketEvent::Connected { greeted: true }));
    assert_eq!(l.phase, Phase::Running);
    match l.drain() {
        DrainNext::Write(b) => assert_eq!(b, vec![1]),
        other => panic!("the handshake begins with a message, got {other:?}"),
    }
}

fn running() -> Link {
    let mut l = Link::open(2, true, None);
    l.on_event(LinkEvent::Bearer(BearerEvent::Up { iap: 5, socket: SocketStart::Started }));
    l.on_event(LinkEvent::Socket(SocketEvent::Connected { greeted: true }));
    l
}

#[test]
fn a_resumed_link_says_that_it_is_ready() {
    let mut l = running();
    assert!(l.was_resumed());
    match l.drain() {
        DrainNext::Report(Progress::Authenticated, None) => {}
        other => panic!("a resumed link is ready, got {other:?}"),
    }
}

#[test]
fn a_request_thrown_away_is_sent_again_and_then_given_up() {
    let mut l = running();
    l.drain();
    assert!(l.wraps_next());
    assert!(!l.call(false, vec![1], 7, None));
    assert!(l.wraps_next());
    assert!(l.last_call.is_none());
    assert!(l.call(true, vec![4, 2], 9, Some(Step::Send(vec![6]))));
    assert!(!l.wraps_next());
    assert!(matches!(l.drain(), DrainNext::Write(b) if b == vec![6]));
    assert!(l.wrote(true).is_none());
    assert!(matches!(l.drain(), DrainNext::Done));
    for _ in 0..MAX_RESENDS {
        l.on_steps(Some(vec![Step::Update(Update::NewSalt)]));
        match l.drain() {
            DrainNext::Resend { body, tag } => assert_eq!((body, tag), (vec![4, 2], 9)),
            other => panic!("expected the request again, got {other:?}"),
        }
        assert!(l.resent(Resent::Written).is_none());
    }
    l.on_steps(Some(vec![Step::Update(Update::NewSalt)]));
    match l.drain() {
        DrainNext::Report(Progress::Disconnected(why), _) => {
            assert_eq!(why, "o servidor recusou o pedido várias vezes")
        }
        other => panic!("a bounded number of times, got {other:?}"),
    }
    assert_eq!(l.phase, Phase::Dead);
}

#[test]
fn a_clock_that_is_wrong_is_put_right_once_and_written_down() {
    let mut l = running();
    l.drain();
    l.call(true, vec![4, 2], 9, None);
    l.on_steps(Some(vec![Step::Update(Update::BadMessage { stamped: 1, code: 16 })]));
    assert!(matches!(l.drain(), DrainNext::FixClock));
    match l.clock_corrected(Some(1_700_000_000)) {
        (true, DrainNext::Resend { body, tag }) => assert_eq!((body, tag), (vec![4, 2], 9)),
        other => panic!("expected the request again, got {other:?}"),
    }
    match l.retried(Resent::Written) {
        Progress::Step(words) => assert_eq!(words, "relogio ajustado"),
        other => panic!("the clock is right now, got {other:?}"),
    }
    l.on_steps(Some(vec![Step::Update(Update::BadMessage { stamped: 1, code: 17 })]));
    match l.drain() {
        DrainNext::Report(Progress::Disconnected(why), _) => {
            assert_eq!(why, "o relógio do telefone está muito errado")
        }
        other => panic!("once is enough, got {other:?}"),
    }
}

#[test]
fn a_refused_session_is_forgotten_with_its_reason() {
    let mut l = running();
    l.drain();
    l.on_steps(Some(vec![Step::Update(Update::RpcError {
        tag: Some(3),
        code: 401,
        text: "SESSION_REVOKED".to_string(),
    })]));
    match l.drain() {
        DrainNext::Report(Progress::Failed { tag, code, text }, why) => {
            assert_eq!((tag, code, text.as_str()), (3, 401, "SESSION_REVOKED"));
            assert_eq!(why, Some(Invalidate::Revoked));
        }
        other => panic!("expected the refusal, got {other:?}"),
    }
    let f = Link::forget(Invalidate::Revoked);
    assert!(f.wipe_cache);
    assert_eq!((f.session.name.as_str(), f.session.bytes.len()), ("session.bin", LEN));
    assert!(!Link::forget(Invalidate::UnknownKey).wipe_cache);
}

#[test]
fn a_job_goes_to_whoever_asked_for_it() {
    let mut l = running();
    match l.on_event(LinkEvent::Work(Some(vec![1]))) {
        Next::FeedModPow(x) => assert_eq!(x, vec![1]),
        other => panic!("the handshake's, got {other:?}"),
    }
    l.caller_submitted(true);
    match l.on_event(LinkEvent::Work(Some(vec![2]))) {
        Next::Report(Progress::WorkDone(x), None) => assert_eq!(x, vec![2]),
        other => panic!("the caller's, got {other:?}"),
    }
}

#[test]
fn what_could_not_be_read_is_noted() {
    let mut l = running();
    l.take_notes();
    let next = l.on_event(LinkEvent::Socket(SocketEvent::Refused {
        chunk: vec![0xab, 0x01],
        error: ClientError::Rpc(Some(TlError::UnknownConstructor(7))),
    }));
    match next {
        Next::Report(Progress::Disconnected(why), _) => assert_eq!(why, "resposta ilegível"),
        other => panic!("that is the end of it, got {other:?}"),
    }
    let notes = l.take_notes();
    assert!(notes.iter().any(|n| matches!(&n.1, Note::Text(t) if t == "ab01")));
    assert!(notes.iter().any(|n| n.0 == "tl: unknown ctor" && matches!(n.1, Note::Num(7))));
    assert!(notes.len() <= MAX_NOTES);
}

#[test]
fn each_failure_is_described_by_what_failed() {
    assert_eq!(describe(&ClientError::Server(-404)), "o servidor esqueceu a chave");
    assert_eq!(describe(&ClientError::Server(-429)), "o servidor recusou");
    assert_eq!(
        describe(&ClientError::Handshake(HandshakeError::NotFactorable)),
        "handshake: não fatorei o pq"
    );
    assert_eq!(describe(&ClientError::NotReady), "ainda não conectado");
}

#[test]
fn an_access_point_survives_a_launch() {
    let f = save_iap(42).expect("an access point was found");
    assert_eq!(f.name, "iap.bin");
    assert_eq!(load_iap(Some(&f.bytes)), Some(42));
    assert_eq!(load_iap(Some(&[1, 2])), None);
    assert_eq!(load_iap(None), None);
    assert!(save_iap(0).is_none());
    assert_eq!(iap_to_start(&None, Some(42)), Some(42));
}

#[test]
fn credentials_are_digits_and_a_hash() {
    assert_eq!(parse_i32("12345"), 12345);
    assert_eq!(parse_i32("12x"), 0);
    assert_eq!(parse_i32("99999999999"), i32::MAX);
    assert_eq!(api_id(None), 0);
    assert_eq!(api_hash(None), "");
    assert!(has_credentials(Some("7"), Some("abc")));
    assert!(!has_credentials(Some("7"), None));
    assert!(!has_credentials(None, Some("abc")));
}

// ---- the recorded handshake -----------------------------------------------------------------------

fn recording(parts: [&[u8]; 5]) -> Vec<u8> {
    let mut b = Vec::new();
    for p in parts {
        b.extend_from_slice(&(p.len() as u32).to_le_bytes());
    }
    for p in parts {
        b.extend_from_slice(p);
    }
    b
}

fn replay() -> Replay {
    Replay {
        start: selfcheck::Step::Sent(vec![4, 4]),
        on_res_pq: Ok(selfcheck::Step::Sent(vec![5])),
        on_dh_params: Ok(selfcheck::Step::ModPow { base: vec![3], modulus: vec![1; 256] }),
        exhausted: false,
    }
}

fn blob() -> Vec<u8> {
    recording([&[1, 2, 3], &[2], &[3, 3], &[4, 4], &[5]])
}

fn failed(r: &Replay) -> (&'static str, String) {
    match run(&blob(), r) {
        selfcheck::Outcome::Failed(step, why) => (step, why),
        selfcheck::Outcome::Passed => panic!("expected a failure"),
    }
}

#[test]
fn a_recording_comes_apart_where_its_lengths_say() {
    let p = split(&blob()).expect("whole");
    assert_eq!(p.tape, vec![1, 2, 3]);
    assert_eq!(p.res_pq, vec![2]);
    assert_eq!(p.dh_params, vec![3, 3]);
    assert_eq!(p.req_pq, vec![4, 4]);
    assert_eq!(p.req_dh, vec![5]);
    let whole = blob();
    for cut in 0..whole.len() {
        assert!(split(&whole[..cut]).is_none(), "cut at {cut}");
    }
}

#[test]
fn a_replay_that_matches_passes() {
    assert_eq!(run(&blob(), &replay()), selfcheck::Outcome::Passed);
}

#[test]
fn each_step_that_goes_wrong_is_named() {
    assert_eq!(
        run(&[1, 2], &replay()),
        selfcheck::Outcome::Failed("fixture", "blob is malformed".to_string())
    );
    let mut r = replay();
    r.start = selfcheck::Step::Other;
    assert_eq!(failed(&r), ("step1", "start did not send".to_string()));
    r.start = selfcheck::Step::Sent(vec![4, 9, 9]);
    assert_eq!(
        failed(&r),
        ("step1", "req_pq_multi differs at 1, got 0909 want 04".to_string())
    );
    let mut r = replay();
    r.on_res_pq = Err(HandshakeError::Tl(TlError::UnknownConstructor(0xdead)));
    assert_eq!(failed(&r), ("step2", "tl unknown ctor 0000dead".to_string()));
    r.on_res_pq = Ok(selfcheck::Step::Other);
    assert_eq!(failed(&r), ("step2", "did not send req_DH_params".to_string()));
    let mut r = replay();
    r.on_dh_params = Err(HandshakeError::NonceMismatch);
    assert_eq!(failed(&r), ("step3", "nonce mismatch".to_string()));
    r.on_dh_params = Ok(selfcheck::Step::Other);
    assert_eq!(failed(&r), ("step3", "did not ask for a modpow".to_string()));
    r.on_dh_params = Ok(selfcheck::Step::ModPow { base: vec![2], modulus: vec![1; 256] });
    assert_eq!(failed(&r), ("step3", "wrong DH parameters".to_string()));
    let mut r = replay();
    r.exhausted = true;
    assert_eq!(failed(&r), ("tape", "ran out of recorded randomness".to_string()));
}

#[test]
fn a_tape_is_read_in_order_and_says_when_it_ran_out() {
    let mut t = Tape::new(vec![1, 2, 3]);
    assert_eq!(t.fill(2), vec![1, 2]);
    assert!(!t.exhausted);
    assert_eq!(t.fill(2), vec![0, 0]);
    assert!(t.exhausted);
    assert_eq!(t.fill(1), vec![3], "what is left is still there");
}

#[test]
fn a_difference_is_said_by_its_place() {
    assert_eq!(first_difference(&[1, 2, 3], &[1, 2, 4]), 2);
    assert_eq!(first_difference(&[1], &[1, 2]), 1);
    assert_eq!(first_difference(&[], &[]), 0);
    assert_eq!(
        diff("x", &[0, 1, 2, 3, 4, 5, 6, 7, 8, 9], &[9]),
        "x differs at 0, got 0001020304050607 want 09"
    );
    assert_eq!(name_of(HandshakeError::Tl(TlError::Unexpected { want: 1, got: 0xff })),
        "tl wanted 00000001 got 000000ff");
}
