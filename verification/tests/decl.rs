//! The described screens, their bars, and what they say in either language.

use std::rc::Rc;
use telegram::chats::{badge_label, itoa};
use telegram::chats_decl;
use telegram::conv::{ConvAction, Conversation, Focus};
use telegram::conv_decl;
use telegram::login::{Login, Screen};
use telegram::login_decl;
use telegram::login_decl::{hint, Body, State, Which};
use telegram::menu_decl;
use telegram::menu_decl::{entries, label, Action};
use telegram::model::{Delivery, Media, Message, Store};
use telegram::strings;
use telegram::strings::Lang;
use telegram::ui::{Edges, Field, Ink, Key, Metrics, Slot, Softkey, Words};
use telegram::viewer_decl;

const METRICS: Metrics = Metrics { pad: 4, row_h: 38, softkey_h: 20 };

fn words() -> Words {
    Words { back: "Back", select: "Select", cancel: "Cancel", options: "Options" }
}

fn slot(key: Key) -> Option<Slot> {
    match key {
        Key::Softkey(Softkey::Left) => Some(Slot::Options),
        Key::Softkey(Softkey::Middle) | Key::Select | Key::Enter => Some(Slot::Action),
        Key::Softkey(Softkey::Right) => Some(Slot::Back),
        _ => None,
    }
}

// ---- the chat list --------------------------------------------------------------------------------

#[test]
fn itoa_matches_decimal() {
    assert_eq!(itoa(0), "0");
    assert_eq!(itoa(7), "7");
    assert_eq!(itoa(42), "42");
    assert_eq!(itoa(999), "999");
    assert_eq!(itoa(4_294_967_295), "4294967295");
}

#[test]
fn initials_take_word_starts() {
    let mut s = Store::mock();
    s.chats[0].name = "Ana Paula".into();
    assert_eq!(s.chats[0].initials(), "AP");
    s.chats[0].name = "Marina".into();
    assert_eq!(s.chats[0].initials(), "M");
    s.chats[0].name = "".into();
    assert_eq!(s.chats[0].initials(), "?");
}

#[test]
fn color_seed_is_stable_per_name() {
    let a = Store::mock();
    let b = Store::mock();
    for (x, y) in a.chats.iter().zip(&b.chats) {
        assert_eq!(x.color_seed(), y.color_seed());
    }
}

#[test]
fn a_tint_comes_from_the_name_alone() {
    let mut s = Store::mock();
    s.chats[0].name = "a".into();
    assert_eq!(s.chats[0].color_seed(), 0xe40c_292c);
    s.chats[1].name = "a".into();
    assert_eq!(s.chats[0].color_seed(), s.chats[1].color_seed());
}

#[test]
fn a_badge_holds_three_digits() {
    assert_eq!(badge_label(7), "7");
    assert_eq!(badge_label(999), "999");
    assert_eq!(badge_label(1000), "999+");
}

#[test]
fn the_metrics_here_are_the_metrics_the_theme_uses() {
    assert_eq!(chats_decl::pad(&METRICS), METRICS.pad);
    assert_eq!(chats_decl::row_height(&METRICS), METRICS.row_h);
}

#[test]
fn a_row_carries_what_the_list_draws_and_nothing_else() {
    let store = Store::mock();
    let rows = chats_decl::rows(&store);
    assert_eq!(rows.len(), store.chats.len());
    for (row, chat) in rows.iter().zip(&store.chats) {
        assert_eq!(row.name, chat.name);
        assert_eq!(row.time, chat.time);
        assert_eq!(row.preview, chat.preview());
        assert_eq!(row.unread, chat.unread);
        assert_eq!(row.last_outgoing, chat.last_outgoing);
        assert_eq!(row.initials, chat.initials());
        assert_eq!(row.color_seed, chat.color_seed());
    }
}

#[test]
fn an_inline_photo_does_not_travel_into_the_row() {
    let mut store = Store::mock();
    let heavy = vec![0xABu8; 64 * 1024];
    let chat = &mut store.chats[0];
    chat.messages.push(Message {
        id: 99,
        text: String::new(),
        outgoing: false,
        time: "14:32".into(),
        state: Delivery::Read,
        media: Some(Media::Photo {
            id: 7,
            access_hash: 0,
            file_reference: Vec::new(),
            dc_id: 2,
            thumb_size: "m".into(),
            size: heavy.len() as i64,
            preview: Some(heavy.clone()),
        }),
    });

    let row = &chats_decl::rows(&store)[0];
    assert_eq!(row.preview, "Foto");
    assert!(row.preview.capacity() < 64, "the row is holding something it should not be");
}

#[test]
fn projected_rows_are_shared_rather_than_copied() {
    let store = Store::mock();
    let rows = chats_decl::rows(&store);
    let again = rows.clone();
    assert!(Rc::ptr_eq(&rows, &again));
    assert_eq!(Rc::strong_count(&rows), 2);

    match chats_decl::view(again, false, "", 0, &METRICS).body {
        chats_decl::Body::List { rows: shown, .. } => assert!(Rc::ptr_eq(&rows, &shown)),
        _ => panic!("there is something to list"),
    }
}

fn list_on_key(k: Key) -> Option<chats_decl::Msg> {
    chats_decl::on_key(false, k, slot(k))
}

#[test]
fn chats_decl_the_green_key_opens_the_highlighted_chat() {
    assert_eq!(list_on_key(Key::Call), Some(chats_decl::Msg::Open));
    assert_eq!(list_on_key(Key::Select), Some(chats_decl::Msg::Open));
}

#[test]
fn the_softkeys_mean_what_the_hand_written_screen_means() {
    assert_eq!(list_on_key(Key::Softkey(Softkey::Left)), Some(chats_decl::Msg::Options));
    assert_eq!(list_on_key(Key::Softkey(Softkey::Right)), Some(chats_decl::Msg::Quit));
    assert_eq!(
        chats_decl::softkeys(false).labels(),
        [Some("Opções"), Some("Abrir"), Some("Sair")]
    );
    assert_eq!(chats_decl::softkeys(true).labels(), [Some("..."), Some("Abrir"), Some("Sair")]);
}

#[test]
fn navigation_is_left_to_the_list() {
    for k in [Key::Up, Key::Down, Key::Left, Key::Right] {
        assert_eq!(list_on_key(k), None, "{k:?} was claimed by the screen");
    }
}

#[test]
fn an_empty_list_says_so() {
    let listing = chats_decl::view(Rc::new(Vec::new()), false, "conectado", 0, &METRICS);
    assert_eq!(listing.detail, "conectado");
    match listing.body {
        chats_decl::Body::Empty(words) => assert_eq!(words, "Nenhuma conversa"),
        _ => panic!("there is nothing to list"),
    }
    let listing = chats_decl::view(chats_decl::rows(&Store::mock()), true, "x", 1, &METRICS);
    assert_eq!(listing.detail, "carregando…");
}

#[test]
fn a_selected_row_changes_its_inks() {
    let rows = chats_decl::rows(&Store::mock());
    let plain = chats_decl::chat_row(&rows[0], false, &METRICS);
    let lit = chats_decl::chat_row(&rows[0], true, &METRICS);
    assert_eq!(plain.name_ink, Ink::Text);
    assert_eq!(lit.name_ink, Ink::SelectionText);
    assert_eq!(plain.badge, if rows[0].unread > 0 { Some(rows[0].unread) } else { None });
}

// ---- the menu and the viewer ----------------------------------------------------------------------

#[test]
fn the_log_entry_reports_its_own_state() {
    assert_eq!(label(Action::DebugLog, true, Lang::En), "Log: ligado");
    assert_eq!(label(Action::DebugLog, false, Lang::En), "Log: desligado");
    assert_eq!(
        label(Action::Refresh, true, Lang::En),
        strings::refresh(Lang::En),
        "not every entry is a state"
    );
}

#[test]
fn refresh_is_the_first_entry() {
    assert_eq!(entries().first().copied(), Some(Action::Refresh));
}

#[test]
fn the_bar_offers_a_choice_and_a_way_out() {
    assert_eq!(
        menu_decl::softkeys(words()).labels(),
        [None, Some(words().select), Some(words().back)]
    );
}

#[test]
fn the_menu_lists_its_entries() {
    let m = menu_decl::view(1, true, words(), Lang::Pt, &METRICS);
    assert_eq!(m.title, "Options");
    assert_eq!(m.rows, vec!["Atualizar", "Log: ligado"]);
    assert_eq!((m.selected, m.row_h, m.pad), (1, 38, 4));
    assert_eq!(menu_decl::on_key(Some(Slot::Options), words()), None);
    assert_eq!(menu_decl::on_key(Some(Slot::Action), words()), Some(menu_decl::Msg::Run));
}

#[test]
fn the_viewer_has_one_way_out() {
    let v = viewer_decl::view(words(), Lang::Pt);
    assert_eq!(v.title, "Foto");
    assert_eq!(v.labels, [None, None, Some("Back")]);
    assert_eq!(viewer_decl::on_key(Some(Slot::Back), words()), Some(viewer_decl::Msg::Back));
    assert_eq!(viewer_decl::on_key(Some(Slot::Action), words()), None);
}

// ---- the login ------------------------------------------------------------------------------------

fn state(which: Which, connected: bool) -> State {
    State { which, error: None, status: String::new(), connected }
}

fn login_on_key(s: &State, k: Key) -> Option<login_decl::Msg> {
    login_decl::on_key(s, k, slot(k), words(), Lang::En)
}

#[test]
fn confirming_submits_even_where_the_label_is_gone() {
    let s = state(Which::Phone { credentials_missing: false }, false);
    assert_eq!(login_decl::softkeys(&s, words(), Lang::En).labels(), [None, None, None]);
    for k in [Key::Call, Key::Select, Key::Enter, Key::Softkey(Softkey::Middle)] {
        assert_eq!(login_on_key(&s, k), Some(login_decl::Msg::Submit));
    }
    assert_eq!(login_on_key(&s, Key::Softkey(Softkey::Right)), Some(login_decl::Msg::Quit));
}

#[test]
fn a_waiting_login_offers_only_the_way_out() {
    let s = state(Which::Waiting("a caminho".into()), true);
    assert_eq!(login_decl::softkeys(&s, words(), Lang::En).labels(), [None, None, Some("Cancel")]);
    assert_eq!(login_on_key(&s, Key::Select), None);
    assert_eq!(
        login_on_key(&s, Key::Softkey(Softkey::Right)),
        Some(login_decl::Msg::BackToPhone)
    );
    let d = login_decl::view(&s, 320, &METRICS, words(), Lang::En);
    assert_eq!(d.detail, "a caminho");
    match d.body {
        Body::Waiting(words) => assert_eq!(words, "a caminho"),
        _ => panic!("there is no field to show"),
    }
}

#[test]
fn the_password_label_is_a_verb() {
    let hidden = state(Which::Password { hint: String::new(), masked: true }, true);
    let open = state(Which::Password { hint: String::new(), masked: false }, true);
    assert_eq!(login_decl::softkeys(&hidden, words(), Lang::En).labels()[0], Some("Show"));
    assert_eq!(login_decl::softkeys(&open, words(), Lang::En).labels()[0], Some("Hide"));
    assert_eq!(
        login_on_key(&hidden, Key::Softkey(Softkey::Left)),
        Some(login_decl::Msg::ToggleMask)
    );
}

#[test]
fn the_hint_says_how_many_digits_to_expect() {
    assert_eq!(
        hint(&Which::Code { length: Some(5) }, Lang::Pt).as_deref(),
        Some("Digite os 5 dígitos")
    );
    assert_eq!(
        hint(&Which::Code { length: None }, Lang::En).as_deref(),
        Some("Enter the code sent by SMS")
    );
    assert_eq!(
        hint(&Which::Password { hint: "gato".into(), masked: true }, Lang::En).as_deref(),
        Some("gato")
    );
    assert_eq!(hint(&Which::Password { hint: String::new(), masked: true }, Lang::En), None);
    assert_eq!(hint(&Which::Phone { credentials_missing: false }, Lang::En), None);
}

#[test]
fn a_login_screen_is_described_whole() {
    let mut login = Login::new(12345, "abcdef");
    login.set_status("conectando");
    login.screen = Screen::Code {
        field: Field::with_limit(8),
        length: Some(5),
        error: Some("Código incorreto".into()),
    };
    let s = State::of(&login);
    assert_eq!(s.status, "conectando");
    let d = login_decl::view(&s, 320, &METRICS, words(), Lang::Pt);
    assert_eq!(d.detail, "código");
    match d.body {
        Body::Form(f) => {
            assert_eq!(f.title, "Código");
            assert_eq!((f.indent, f.width), (56, 200));
            assert_eq!(f.prefix, None);
            assert_eq!(f.placeholder, "código");
            assert_eq!(f.line.as_deref(), Some("Código incorreto"));
            let h = f.hint.unwrap();
            assert_eq!(h.text, "Digite os 5 dígitos");
            assert_eq!(h.around, Edges { left: 4, top: 0, right: 4, bottom: 24 });
            let st = f.status.unwrap();
            assert_eq!(st.text, "conectando");
            assert_eq!(st.around, Edges { left: 0, top: 0, right: 8, bottom: 4 });
        }
        _ => panic!("a code screen has a field"),
    }
}

#[test]
fn a_build_without_credentials_says_so_instead_of_an_error() {
    let login = Login::new(0, "");
    let d = login_decl::view(&State::of(&login), 320, &METRICS, words(), Lang::En);
    match d.body {
        Body::Form(f) => {
            assert_eq!(f.prefix, Some("+"));
            assert_eq!(
                f.line.as_deref(),
                Some("no api_id: see apps/telegram/api.conf.example")
            );
        }
        _ => panic!("the phone screen has a field"),
    }
}

// ---- the conversation -----------------------------------------------------------------------------

#[test]
fn the_bar_of_a_conversation_offers_to_send_only_what_there_is() {
    assert_eq!(
        conv_decl::softkeys(true, words(), Lang::En).labels(),
        [Some("Refresh"), None, Some("Back")]
    );
    assert_eq!(
        conv_decl::softkeys(false, words(), Lang::Pt).labels(),
        [Some("Atualizar"), Some("Enviar"), Some("Back")]
    );
}

#[test]
fn an_action_becomes_a_message_and_no_text_is_dropped() {
    assert_eq!(
        conv_decl::message_for(ConvAction::Send("oi".into())),
        Some(conv_decl::Msg::SendTaken("oi".into()))
    );
    assert_eq!(
        conv_decl::message_for(ConvAction::OpenMedia(3)),
        Some(conv_decl::Msg::OpenMedia(3))
    );
    assert_eq!(conv_decl::message_for(ConvAction::Nothing), None);
}

#[test]
fn a_description_that_changed_is_reported() {
    let mut conv = Conversation::new(0);
    let before = conv_decl::ViewState::of(&conv);
    conv.composer.text = "o".into();
    let after = conv_decl::ViewState::of(&conv);
    assert_eq!(conv_decl::report(ConvAction::Nothing, &before, &before), None);
    assert_eq!(
        conv_decl::report(ConvAction::Nothing, &before, &after),
        Some(conv_decl::Msg::ViewStale)
    );
    assert_eq!(
        conv_decl::report(ConvAction::Back, &before, &after),
        Some(conv_decl::Msg::Back)
    );
}

#[test]
fn the_action_key_is_routed_by_focus() {
    let on = |focus| conv_decl::on_key(focus, false, Key::Select, slot(Key::Select), words(), Lang::En);
    assert_eq!(on(Focus::Transcript), Some(conv_decl::Msg::Activate));
    assert_eq!(on(Focus::Composer), Some(conv_decl::Msg::Send));
}

// ---- the words ------------------------------------------------------------------------------------

const ENTRIES: [fn(Lang) -> &'static str; 39] = [
    strings::sign_in,
    strings::next,
    strings::phone_number,
    strings::code,
    strings::enter_sms_code,
    strings::digits_suffix,
    strings::send,
    strings::refresh,
    strings::code_field,
    strings::debug_log,
    strings::media_photo,
    strings::media_voice,
    strings::media_audio,
    strings::media_file,
    strings::media_other,
    strings::wrong_code,
    strings::unknown_number,
    strings::bad_api_id,
    strings::not_connected_yet,
    strings::no_connection,
    strings::no_network,
    strings::look_for_the_dialog,
    strings::could_not_open_socket,
    strings::could_not_reach_server,
    strings::server_did_not_answer,
    strings::could_not_switch_server,
    strings::server_refused_repeatedly,
    strings::could_not_resend,
    strings::clock_is_wrong,
    strings::could_not_resend_after_clock,
    strings::unreadable_response,
    strings::could_not_decrypt,
    strings::could_not_compute_key,
    strings::handshake_unreadable_tl,
    strings::handshake_no_factor,
    strings::handshake_bad_dh,
    strings::handshake_nonce_mismatch,
    strings::handshake_key_failed,
    strings::handshake_keys_differ,
];

#[test]
fn nothing_was_filled_in_by_copying_the_english() {
    for f in ENTRIES {
        assert_ne!(f(Lang::En), f(Lang::Pt), "the same in both languages");
    }
}

#[test]
fn every_failure_says_a_different_thing() {
    for l in [Lang::En, Lang::Pt] {
        let mut seen: Vec<&str> = ENTRIES[18..].iter().map(|f| f(l)).collect();
        let before = seen.len();
        assert_eq!(before, 21);
        seen.sort_unstable();
        seen.dedup();
        assert_eq!(seen.len(), before, "{l:?}: two failures read the same");
    }
}
