//! The screens under a small toolkit: a font six pixels wide, fields, and lists that scroll.

use telegram::app::{App, Do, Press, Reply, Screen};
use telegram::chats::{ChatList, ChatListAction, RowLook, RowMeasure, VisibleRow};
use telegram::conv::{ConvAction, Conversation, Focus, Placement};
use telegram::conv_draw::{composer_h, BubbleMeasure, ConvFrame, ConvLook, VisibleBubble};
use telegram::driver::TAG_DIALOGS;
use telegram::labels::{media_label, Atlas};
use telegram::login;
use telegram::login::{error_text, Action, AuthError, Login, LoginAction, Progress};
use telegram::login_draw::LoginLook;
use telegram::model::{Chat, Delivery, Media, Message, Store};
use telegram::mvu::{Cmd, Model, Msg, Scene, Tg};
use telegram::proto;
use telegram::strings;
use telegram::strings::Lang;
use telegram::transcript::{
    runs, Heights, Line, Measured, Span, Transcript, BUBBLE_HPAD, BUBBLE_MAX_PCT, BUBBLE_VPAD,
};
use telegram::ui::{
    Answer, Ask, Edit, Field, Frame, Handled, Key, ListState, Metrics, Moved, Op, Rect, Slot,
    Softkey, Words,
};
use telegram::{chats_decl, menu_decl};

// ---- the toolkit ----------------------------------------------------------------------------------

const W: i32 = 320;
const H: i32 = 240;
const TITLE_H: i32 = 22;
const LINE: i32 = 12;
const METRICS: Metrics = Metrics { pad: 4, row_h: 38, softkey_h: 20 };
const NOW: i64 = 1_700_000_000;

fn frame() -> Frame {
    Frame {
        title: Rect { x0: 0, y0: 0, x1: W, y1: TITLE_H },
        content: Rect { x0: 0, y0: TITLE_H, x1: W, y1: H - METRICS.softkey_h },
        softkeys: Rect { x0: 0, y0: H - METRICS.softkey_h, x1: W, y1: H },
    }
}

fn content_h() -> i32 {
    frame().content.y1 - frame().content.y0
}

fn words() -> Words {
    Words { back: "Voltar", select: "Selecionar", cancel: "Cancelar", options: "Opções" }
}

/// Latin, Greek and Cyrillic, as on the handset, and no emoji.
fn atlas() -> Atlas {
    Atlas { glyphs: (0x20u32..0x500).filter_map(char::from_u32).collect() }
}

fn wide(s: &str) -> i32 {
    6 * s.chars().count() as i32
}

/// Break a text into lines no wider than a width, at spaces where there are any.
fn wrap(text: &str, max_w: i32) -> Vec<Line> {
    let chars: Vec<char> = text.chars().collect();
    let fit = (max_w / 6).max(1) as usize;
    let mut lines = Vec::new();
    let mut at = 0;
    while at < chars.len() {
        let hard = chars[at..].iter().position(|c| *c == '\n').map_or(chars.len(), |n| at + n);
        let mut end = (at + fit).min(hard);
        let mut next = end;
        if end < hard {
            if let Some(n) = (at..=end).rev().find(|i| chars[*i] == ' ') {
                if n > at {
                    end = n;
                    next = n + 1;
                }
            }
        } else if hard < chars.len() {
            next = hard + 1;
        }
        lines.push(Line { start: at, end, width: 6 * (end - at) as i32 });
        at = next;
    }
    lines
}

/// The web addresses in a text, without the full stop that ends a sentence.
fn links(text: &str) -> Vec<Span> {
    let chars: Vec<char> = text.chars().collect();
    let mut out = Vec::new();
    let mut at = 0;
    while at < chars.len() {
        let word: String = chars[at..].iter().take(8).collect();
        if word == "https://" {
            let mut end = at;
            while end < chars.len() && chars[end] != ' ' {
                end += 1;
            }
            let mut last = end;
            while last > at && chars[last - 1] == '.' {
                last -= 1;
            }
            out.push(Span { start: at, end: last });
            at = end;
        } else {
            at += 1;
        }
    }
    out
}

fn heights() -> Heights {
    Heights { body: LINE, small: LINE }
}

fn measured(chat: &Chat, avail: i32) -> Vec<Measured> {
    chat.messages
        .iter()
        .map(|m| Measured {
            lines: wrap(&m.text, avail * BUBBLE_MAX_PCT / 100 - BUBBLE_HPAD * 2),
            time_w: wide(&m.time),
            state_w: if m.outgoing { wide(m.state.glyph()) } else { 0 },
            links: links(&m.text),
        })
        .collect()
}

fn laid_out(chat: &Chat, avail: i32) -> Transcript {
    Transcript::build(chat, &measured(chat, avail), heights(), avail)
}

fn clamped(s: ListState, rows: &[i32], viewport: i32) -> ListState {
    let content: i32 = rows.iter().sum();
    ListState { selected: s.selected, scroll: s.scroll.min(content - viewport).max(0) }
}

fn shown(s: ListState, rows: &[i32], viewport: i32) -> ListState {
    if rows.is_empty() {
        return s;
    }
    let top: i32 = rows[..s.selected].iter().sum();
    let bottom = top + rows[s.selected];
    let mut scroll = s.scroll;
    if bottom > scroll + viewport {
        scroll = bottom - viewport;
    }
    if top < scroll {
        scroll = top;
    }
    clamped(ListState { selected: s.selected, scroll }, rows, viewport)
}

fn listed(s: ListState, rows: &[i32], viewport: i32, key: Key) -> Moved {
    let selected = match key {
        Key::Up => s.selected.saturating_sub(1),
        Key::Down => (s.selected + 1).min(rows.len().saturating_sub(1)),
        _ => return Moved { handled: Handled::Ignored, state: s },
    };
    let state = shown(ListState { selected, scroll: s.scroll }, rows, viewport);
    Moved { handled: Handled::Consumed, state }
}

fn edited(f: &Field, key: Key) -> Edit {
    let mut field = f.clone();
    let mut chars: Vec<char> = field.text.chars().collect();
    let handled = match key {
        Key::Char(c) => {
            if chars.len() < field.limit {
                chars.insert(field.cursor, c);
                field.cursor += 1;
            }
            Handled::Consumed
        }
        Key::Backspace if field.cursor > 0 => {
            field.cursor -= 1;
            chars.remove(field.cursor);
            Handled::Consumed
        }
        Key::Ctrl(_) => Handled::Consumed,
        _ => Handled::Ignored,
    };
    field.text = chars.into_iter().collect();
    Edit { handled, field }
}

/// Which slot of a bar a key presses.
fn slot(key: Key) -> Option<Slot> {
    match key {
        Key::Softkey(Softkey::Left) => Some(Slot::Options),
        Key::Softkey(Softkey::Middle) | Key::Select | Key::Enter => Some(Slot::Action),
        Key::Softkey(Softkey::Right) => Some(Slot::Back),
        _ => None,
    }
}

fn transcript_h() -> i32 {
    content_h() - composer_h(LINE)
}

fn bubble_rows(conv: &Conversation) -> Vec<i32> {
    match &conv.transcript {
        Some(t) => (0..t.len()).map(|i| t.height(i)).collect(),
        None => Vec::new(),
    }
}

fn top_row(conv: &Conversation) -> Option<usize> {
    let mut y = 0;
    for (i, h) in bubble_rows(conv).iter().enumerate() {
        y += h;
        if y > conv.state.scroll {
            return Some(i);
        }
    }
    None
}

/// Bring the layout up to date and put the list where it goes.
fn lay(conv: &mut Conversation, chat: &Chat) {
    let avail = W - METRICS.pad * 2;
    let top = top_row(conv);
    let x = if conv.needs_layout(chat, avail) { measured(chat, avail) } else { Vec::new() };
    let to = conv.ensure_layout(chat, avail, &x, heights(), top);
    let rows = bubble_rows(conv);
    conv.state = match to {
        Placement::Keep => conv.state,
        Placement::End => {
            let selected = rows.len().saturating_sub(1);
            shown(ListState { selected, scroll: 0 }, &rows, transcript_h())
        }
        Placement::Row(i) => {
            let scroll = rows[..i].iter().sum();
            clamped(ListState { selected: conv.state.selected, scroll }, &rows, transcript_h())
        }
        Placement::Clamp => {
            let selected = conv.state.selected.min(rows.len().saturating_sub(1));
            clamped(ListState { selected, scroll: conv.state.scroll }, &rows, transcript_h())
        }
    };
}

fn conv_answer(conv: &Conversation, key: Key) -> Answer {
    let rows = bubble_rows(conv);
    match conv.asks(key) {
        Ask::Nothing => Answer::Nothing,
        Ask::Field => Answer::Edited(edited(&conv.composer, key)),
        Ask::List => Answer::Moved(listed(conv.state, &rows, transcript_h(), key)),
        Ask::Previous => Answer::Moved(listed(conv.state, &rows, transcript_h(), Key::Up)),
        Ask::Next => Answer::Moved(listed(conv.state, &rows, transcript_h(), Key::Down)),
    }
}

fn key_on(conv: &mut Conversation, chat: &Chat, key: Key) -> (Handled, ConvAction) {
    lay(conv, chat);
    let answer = conv_answer(conv, key);
    conv.handle_key(key, chat, &atlas(), Lang::En, answer)
}

// ---- the conversation -----------------------------------------------------------------------------

#[test]
fn every_line_fits_inside_its_bubble() {
    let store = Store::mock();
    let avail = W - METRICS.pad * 2;
    for chat in &store.chats {
        let tr = laid_out(chat, avail);
        for (m, l) in chat.messages.iter().zip(&tr.laid) {
            let inner = l.bubble_w - BUBBLE_HPAD * 2;
            for line in &l.lines {
                assert!(
                    line.width <= inner,
                    "a line of {:?} is {}px in a {}px bubble",
                    m.text,
                    line.width,
                    inner
                );
            }
            assert!(l.bubble_w <= avail * BUBBLE_MAX_PCT / 100 + 1);
        }
    }
}

#[test]
fn wrapping_preserves_every_character() {
    let store = Store::mock();
    let tr = laid_out(&store.chats[0], 200);
    for (m, l) in store.chats[0].messages.iter().zip(&tr.laid) {
        let chars: Vec<char> = m.text.chars().collect();
        let joined: String =
            l.lines.iter().flat_map(|ln| chars[ln.start..ln.end].iter()).collect();
        let expect: String = m.text.chars().filter(|c| *c != ' ' && *c != '\n').collect();
        let got: String = joined.chars().filter(|c| *c != ' ').collect();
        assert_eq!(got, expect, "text lost while wrapping {:?}", m.text);
    }
}

#[test]
fn transcript_opens_at_the_newest_message() {
    let store = Store::mock();
    let mut conv = Conversation::new(0);
    lay(&mut conv, &store.chats[0]);

    let tr = conv.transcript.as_ref().unwrap();
    assert_eq!(conv.state.selected, tr.len() - 1);
    let content: i32 = (0..tr.len()).map(|i| tr.height(i)).sum();
    let expect = (content - transcript_h()).max(0);
    assert_eq!(conv.state.scroll, expect);
}

#[test]
fn right_softkey_goes_back_and_middle_sends() {
    let store = Store::mock();
    let chat = &store.chats[0];
    let mut conv = Conversation::new(0);

    let (_, a) = key_on(&mut conv, chat, Key::Softkey(Softkey::Right));
    assert!(matches!(a, ConvAction::Back));

    let (_, a) = key_on(&mut conv, chat, Key::Softkey(Softkey::Middle));
    assert!(matches!(a, ConvAction::Nothing));

    for ch in "oi".chars() {
        key_on(&mut conv, chat, Key::Char(ch));
    }
    let (_, a) = key_on(&mut conv, chat, Key::Softkey(Softkey::Middle));
    match a {
        ConvAction::Send(s) => assert_eq!(s, "oi"),
        _ => panic!("expected a send"),
    }
    assert!(conv.composer.is_empty(), "composer must clear after sending");
}

#[test]
fn the_timestamp_never_lands_on_top_of_the_media_label() {
    let store = Store::mock();
    let chat = &store.chats[0];
    let tr = laid_out(chat, W);
    let mut checked = 0;
    for (i, m) in chat.messages.iter().enumerate() {
        let laid = &tr.laid[i];
        if m.media.is_none() {
            assert_eq!(laid.media_h, 0, "no media, no reserved band");
            continue;
        }
        checked += 1;
        assert!(laid.media_band_h() > 0, "a media row reserves a band");
        assert!(
            laid.meta_offset(LINE) >= laid.media_band_h(),
            "message {i}: timestamp at {} overlaps a band ending at {}",
            laid.meta_offset(LINE),
            laid.media_band_h(),
        );
        assert!(
            laid.meta_offset(LINE) + LINE + BUBBLE_VPAD * 2 + laid.gap <= laid.height,
            "message {i} overflows its own bubble",
        );
    }
    assert!(checked >= 3, "the mock must carry media rows to test; found {checked}");
}

fn sticker(alt: &str) -> Media {
    Media::Sticker {
        id: 1,
        access_hash: 2,
        file_reference: Vec::new(),
        dc_id: 2,
        alt: alt.to_string(),
        preview: None,
    }
}

#[test]
fn a_sticker_label_does_not_rely_on_an_emoji_the_atlas_lacks() {
    let f = atlas();
    assert!(!f.has('\u{1F600}'), "the fixture matches the device here");
    assert_eq!(media_label(&sticker("\u{1F600}"), &f), "[Sticker]");
    assert_eq!(media_label(&sticker(":)"), &f), "[:)]");
}

#[test]
fn a_media_bubble_shows_a_label_and_never_a_picture() {
    let with_preview = Media::Photo {
        id: 1,
        access_hash: 2,
        file_reference: Vec::new(),
        dc_id: 2,
        thumb_size: "m".to_string(),
        size: 12_000,
        preview: Some(vec![0xFF, 0xD8, 0xFF, 0xE0]),
    };
    let label = media_label(&with_preview, &atlas());
    assert!(label.starts_with("[Foto"), "still a label: {label}");
    assert!(label.contains("KB"), "and it says what opening would cost: {label}");
}

#[test]
fn the_left_softkey_refreshes_without_disturbing_back_or_send() {
    let store = Store::mock();
    let chat = &store.chats[0];
    let mut conv = Conversation::new(0);

    let (h, a) = key_on(&mut conv, chat, Key::Softkey(Softkey::Left));
    assert!(matches!(h, Handled::Consumed));
    assert!(matches!(a, ConvAction::Refresh));
    assert!(conv.note.is_some(), "the user gets told something is happening");

    let (_, a) = key_on(&mut conv, chat, Key::Softkey(Softkey::Right));
    assert!(matches!(a, ConvAction::Back));
}

#[test]
fn refreshing_does_not_send_the_composer_text() {
    let store = Store::mock();
    let chat = &store.chats[0];
    let mut conv = Conversation::new(0);
    for ch in "rascunho".chars() {
        key_on(&mut conv, chat, Key::Char(ch));
    }
    let (_, a) = key_on(&mut conv, chat, Key::Softkey(Softkey::Left));
    assert!(matches!(a, ConvAction::Refresh));
    assert_eq!(conv.composer.text, "rascunho", "the draft survives");
}

#[test]
fn focus_moves_between_composer_and_transcript() {
    let store = Store::mock();
    let chat = &store.chats[0];
    let mut conv = Conversation::new(0);

    assert_eq!(conv.focus, Focus::Composer);
    key_on(&mut conv, chat, Key::Up);
    assert_eq!(conv.focus, Focus::Transcript);
    key_on(&mut conv, chat, Key::Down);
    assert_eq!(conv.focus, Focus::Composer);
}

#[test]
fn typing_while_the_transcript_has_focus_does_not_edit_the_composer() {
    let store = Store::mock();
    let mut conv = Conversation::new(0);
    conv.focus = Focus::Transcript;
    key_on(&mut conv, &store.chats[0], Key::Char('x'));
    assert!(conv.composer.is_empty());
}

#[test]
fn relayout_after_a_new_message_keeps_scroll_valid() {
    let mut store = Store::mock();
    let mut conv = Conversation::new(0);
    lay(&mut conv, &store.chats[0]);

    store.chats[0].messages.truncate(1);
    lay(&mut conv, &store.chats[0]);
    let tr = conv.transcript.as_ref().unwrap();
    assert_eq!(tr.len(), 1);
    assert!(conv.state.scroll >= 0);
    assert!(conv.state.selected < tr.len());
}

fn msg(text: &str, outgoing: bool) -> Message {
    Message {
        id: 1,
        text: text.to_string(),
        outgoing,
        time: "12:00".to_string(),
        state: Delivery::Read,
        media: None,
    }
}

fn chat_of(texts: &[&str]) -> Chat {
    Chat {
        name: "t".to_string(),
        messages: texts.iter().map(|t| msg(t, false)).collect(),
        ..Default::default()
    }
}

/// A conversation laid out, with the cursor on message `at` of the transcript.
fn conv_on(chat: &Chat, at: usize) -> Conversation {
    let mut conv = Conversation::new(0);
    lay(&mut conv, chat);
    let rows = bubble_rows(&conv);
    conv.state = shown(ListState { selected: at, scroll: conv.state.scroll }, &rows, H);
    conv.link = None;
    conv.focus = Focus::Transcript;
    conv
}

fn press(conv: &mut Conversation, chat: &Chat, k: Key) -> ConvAction {
    key_on(conv, chat, k).1
}

fn at(conv: &Conversation) -> (usize, Option<usize>) {
    (conv.state.selected, conv.link)
}

#[test]
fn down_walks_message_then_its_links_then_the_next_message() {
    let chat = chat_of(&["veja https://um.com e https://dois.com", "sem link aqui"]);
    let mut conv = conv_on(&chat, 0);

    assert_eq!(at(&conv), (0, None), "starts on the message, not on a link");
    press(&mut conv, &chat, Key::Down);
    assert_eq!(at(&conv), (0, Some(0)));
    press(&mut conv, &chat, Key::Down);
    assert_eq!(at(&conv), (0, Some(1)));
    press(&mut conv, &chat, Key::Down);
    assert_eq!(at(&conv), (1, None), "off the last link moves to the next message");
}

#[test]
fn up_walks_the_same_sequence_backwards() {
    let chat = chat_of(&["veja https://um.com e https://dois.com", "sem link aqui"]);
    let mut conv = conv_on(&chat, 0);

    let mut forward = vec![at(&conv)];
    for _ in 0..3 {
        press(&mut conv, &chat, Key::Down);
        forward.push(at(&conv));
    }
    let mut backward = vec![at(&conv)];
    for _ in 0..3 {
        press(&mut conv, &chat, Key::Up);
        backward.push(at(&conv));
    }
    backward.reverse();
    assert_eq!(forward, backward, "the walk must be the same stops in reverse");
}

#[test]
fn a_message_without_links_navigates_exactly_as_before() {
    let chat = chat_of(&["primeira", "segunda", "terceira"]);
    let mut conv = conv_on(&chat, 0);

    for _ in 0..2 {
        press(&mut conv, &chat, Key::Down);
    }
    assert_eq!(at(&conv), (2, None));
    press(&mut conv, &chat, Key::Up);
    assert_eq!(at(&conv), (1, None), "and Up never lands on a link that is not there");
}

#[test]
fn select_on_a_link_opens_it_and_says_which() {
    let chat = chat_of(&["veja https://exemplo.com/a."]);
    let mut conv = conv_on(&chat, 0);

    assert_eq!(press(&mut conv, &chat, Key::Select), ConvAction::Nothing);
    press(&mut conv, &chat, Key::Down);
    match press(&mut conv, &chat, Key::Select) {
        ConvAction::OpenLink(u) => {
            assert_eq!(u, "https://exemplo.com/a", "the full stop is not part of it")
        }
        other => panic!("expected OpenLink, got {other:?}"),
    }
    assert_eq!(conv.note.as_deref(), Some("abrindo https://exemplo.com/a"));
}

#[test]
fn a_focused_link_wins_over_the_message_media() {
    let mut chat = chat_of(&["olha https://exemplo.com"]);
    chat.messages[0].media = Some(Media::File {
        id: 1,
        access_hash: 1,
        file_reference: Vec::new(),
        dc_id: 1,
        filename: "a.pdf".to_string(),
        size: 10,
    });
    let mut conv = conv_on(&chat, 0);

    assert!(matches!(press(&mut conv, &chat, Key::Select), ConvAction::OpenMedia(0)));
    press(&mut conv, &chat, Key::Down);
    assert!(matches!(press(&mut conv, &chat, Key::Select), ConvAction::OpenLink(_)));
}

#[test]
fn ctrl_c_copies_the_highlighted_message() {
    let chat = chat_of(&["primeira", "segunda"]);
    let mut conv = conv_on(&chat, 1);
    match press(&mut conv, &chat, Key::Ctrl('c')) {
        ConvAction::Copy(text) => assert_eq!(text, "segunda"),
        other => panic!("expected the message text, got {other:?}"),
    }
    assert_eq!(conv.note.as_deref(), Some("mensagem copiada"));
}

#[test]
fn ctrl_c_on_a_focused_link_copies_only_the_link() {
    let chat = chat_of(&["olha https://exemplo.com"]);
    let mut conv = conv_on(&chat, 0);
    press(&mut conv, &chat, Key::Down);
    match press(&mut conv, &chat, Key::Ctrl('c')) {
        ConvAction::Copy(text) => assert_eq!(text, "https://exemplo.com"),
        other => panic!("expected the link, got {other:?}"),
    }
}

#[test]
fn ctrl_c_on_a_message_with_no_text_copies_nothing_and_says_so() {
    let chat = chat_of(&[""]);
    let mut conv = conv_on(&chat, 0);
    assert!(matches!(press(&mut conv, &chat, Key::Ctrl('c')), ConvAction::Nothing));
    assert_eq!(conv.note.as_deref(), Some("nada para copiar"));
}

#[test]
fn ctrl_c_in_the_composer_belongs_to_the_field_not_the_transcript() {
    let chat = chat_of(&["uma mensagem"]);
    let mut conv = conv_on(&chat, 0);
    conv.focus = Focus::Composer;
    assert!(matches!(press(&mut conv, &chat, Key::Ctrl('c')), ConvAction::Nothing));
    assert_eq!(conv.note, None, "no message was copied");
}

#[test]
fn walking_links_does_not_ask_for_older_messages() {
    let chat = chat_of(&["https://um.com e https://dois.com"]);
    let mut conv = conv_on(&chat, 0);

    press(&mut conv, &chat, Key::Down);
    press(&mut conv, &chat, Key::Down);
    assert_eq!(at(&conv), (0, Some(1)));
    assert_eq!(press(&mut conv, &chat, Key::Up), ConvAction::Nothing, "still walking links");
    assert_eq!(at(&conv), (0, Some(0)));
    assert_eq!(press(&mut conv, &chat, Key::Up), ConvAction::Nothing);
    assert_eq!(press(&mut conv, &chat, Key::Up), ConvAction::LoadMore);
}

#[test]
fn runs_of_a_line_tile_it() {
    let text = "veja https://um.com e mais";
    let line = Line { start: 0, end: text.chars().count(), width: wide(text) };
    let found = runs(&line, &links(text));
    assert_eq!(found.len(), 3);
    assert_eq!((found[0].start, found[0].end, found[0].link), (0, 5, None));
    assert_eq!((found[1].start, found[1].end, found[1].link), (5, 19, Some(0)));
    assert_eq!((found[2].start, found[2].end, found[2].link), (19, 26, None));
}

// ---- the chat list --------------------------------------------------------------------------------

fn list_rows(store: &Store) -> Vec<i32> {
    store.chats.iter().map(|_| METRICS.row_h).collect()
}

fn list_answer(list: &ChatList, store: &Store, key: Key) -> Answer {
    match list.asks(key, store, METRICS.row_h, content_h()) {
        Ask::List => Answer::Moved(listed(list.state, &list_rows(store), content_h(), key)),
        _ => Answer::Nothing,
    }
}

fn list_key(list: &mut ChatList, store: &Store, key: Key) -> (Handled, ChatListAction) {
    let answer = list_answer(list, store, key);
    list.handle_key(key, store, METRICS.row_h, content_h(), answer)
}

fn hand_written_load_more(chats: usize, selected: usize) -> bool {
    let mut store = Store::mock();
    while store.chats.len() < chats {
        let c = store.chats[0].clone();
        store.chats.push(c);
    }
    store.chats.truncate(chats);

    let mut list = ChatList::new();
    list.state =
        shown(ListState { selected, scroll: 0 }, &list_rows(&store), content_h());
    let (handled, action) = list_key(&mut list, &store, Key::Down);
    assert_eq!(handled, Handled::Consumed);
    matches!(action, ChatListAction::LoadMore)
}

#[test]
fn down_on_the_last_row_is_exactly_the_hand_written_pagination_condition() {
    let fits = (content_h() / METRICS.row_h) as usize;
    for n in [1usize, 3, fits, fits + 1, 20] {
        for selected in 0..n {
            let ours = selected == n - 1;
            assert_eq!(
                ours,
                hand_written_load_more(n, selected),
                "{n} rows, cursor on {selected}"
            );
        }
    }
}

#[test]
fn an_empty_list_never_asks_for_another_page() {
    let store = Store { chats: Vec::new(), ..Store::mock() };
    let mut list = ChatList::new();
    let (_, action) = list_key(&mut list, &store, Key::Down);
    assert!(matches!(action, ChatListAction::Nothing));
}

// ---- the application ------------------------------------------------------------------------------

/// Carry out what an application asks for, with no server and an empty disk behind it.
fn carry_out(app: &mut App, fx: Vec<Do>) {
    let mut queue = fx;
    while !queue.is_empty() {
        let d = queue.remove(0);
        match d {
            Do::ReadTail(i) => queue.extend(app.open_chat(i, None)),
            Do::Ask(w) => {
                app.perform(&w, false);
                app.on_sent(w, false, NOW, 0);
            }
            Do::Machine(a) => {
                app.on_machine(a, Action::Call { body: vec![1], tag: 1 });
            }
            _ => {}
        }
    }
}

fn lay_front(app: &mut App) {
    if let Screen::Conversation(conv) = &mut app.screen {
        let chat = &app.store.chats[conv.chat];
        lay(conv, chat);
    }
}

fn answer_for(app: &App, key: Key) -> Answer {
    match &app.screen {
        Screen::Login => match app.asks(key, METRICS.row_h, content_h()) {
            Ask::Field => Answer::Edited(edited(app.login.field().unwrap(), key)),
            _ => Answer::Nothing,
        },
        Screen::Chats(list) => list_answer(list, &app.store, key),
        Screen::Conversation(conv) => conv_answer(conv, key),
        Screen::Viewer(_) => Answer::Nothing,
    }
}

fn app_key(app: &mut App, key: Key) -> Handled {
    lay_front(app);
    let p = Press {
        key,
        answer: answer_for(app, key),
        viewer: (Handled::Ignored, key == Key::Softkey(Softkey::Right)),
        row_h: METRICS.row_h,
        viewport_h: content_h(),
        now: NOW,
        utc_offset: 0,
    };
    let (handled, fx) = app.on_key(p, &atlas());
    carry_out(app, fx);
    handled
}

fn paint(app: &mut App) -> Vec<Op> {
    lay_front(app);
    match &app.screen {
        Screen::Chats(list) => {
            let mut visible = Vec::new();
            for index in 0..app.store.chats.len() {
                let y = TITLE_H + index as i32 * METRICS.row_h - list.state.scroll;
                if y < H && y + METRICS.row_h > TITLE_H {
                    visible.push(VisibleRow {
                        index,
                        rect: Rect { x0: 0, y0: y, x1: W, y1: y + METRICS.row_h },
                        measure: RowMeasure {
                            time_w: wide(&app.store.chats[index].time),
                            badge_w: 18,
                        },
                    });
                }
            }
            let look =
                RowLook { pad: METRICS.pad, small_h: LINE, strong_h: LINE, tick_w: wide("✓✓ ") };
            list.draw(&app.store, frame(), &visible, look)
        }
        Screen::Conversation(conv) => paint_conv(conv, &app.store.chats[conv.chat]),
        _ => paint_login(&app.login),
    }
}

fn paint_conv(conv: &Conversation, chat: &Chat) -> Vec<Op> {
    let content = frame().content;
    let split = content.y1 - composer_h(LINE);
    let area = Rect { y1: split, ..content };
    let rows = bubble_rows(conv);
    let tr = conv.transcript.as_ref().unwrap();
    let mut visible = Vec::new();
    let mut y = area.y0 - conv.state.scroll;
    for (index, h) in rows.iter().enumerate() {
        if y < area.y1 && y + h > area.y0 {
            let m = &chat.messages[index];
            visible.push(VisibleBubble {
                index,
                rect: Rect { x0: METRICS.pad, y0: y, x1: W - METRICS.pad, y1: y + h },
                measure: BubbleMeasure {
                    label_w: m.media.as_ref().map_or(0, |x| wide(&media_label(x, &atlas()))),
                    time_w: wide(&m.time),
                    state_w: wide(m.state.glyph()),
                    run_w: tr.laid[index]
                        .lines
                        .iter()
                        .map(|l| {
                            runs(l, &tr.laid[index].links)
                                .iter()
                                .map(|r| 6 * (r.end - r.start) as i32)
                                .collect()
                        })
                        .collect(),
                },
            });
        }
        y += h;
    }
    let f = ConvFrame {
        frame: frame(),
        area,
        composer: Rect { y0: split, ..content },
        gutter: 6,
        content_h: rows.iter().sum(),
    };
    let look = ConvLook {
        pad: METRICS.pad,
        body_h: LINE,
        body_ascent: 9,
        caret_w: wide(&conv.composer.caret_text()),
    };
    conv.draw(chat, f, &visible, look, None, &atlas())
}

fn paint_login(l: &Login) -> Vec<Op> {
    let look = LoginLook {
        pad: METRICS.pad,
        softkey_h: METRICS.softkey_h,
        title_h: LINE,
        body_h: LINE,
        body_ascent: 9,
        small_h: LINE,
        prefix_w: 6,
        caret_w: l.field().map_or(0, |f| wide(&f.caret_text())),
    };
    l.draw(frame(), look)
}

#[test]
fn opening_a_chat_clears_its_unread_count_and_returning_keeps_the_place() {
    let mut app = App::mock();

    app_key(&mut app, Key::Down); // select chat 1
    assert!(app.store.chats[1].unread > 0);
    app_key(&mut app, Key::Select);
    assert_eq!(app.in_conversation(), Some(1));
    assert_eq!(app.store.chats[1].unread, 0);

    app_key(&mut app, Key::Softkey(Softkey::Right));
    assert_eq!(app.in_conversation(), None);
    match &app.screen {
        Screen::Chats(l) => assert_eq!(l.state.selected, 1),
        _ => panic!(),
    }
}

#[test]
fn pressing_down_past_the_end_of_the_chat_list_is_survivable() {
    let mut app = App::mock();
    let n = app.store.chats.len();
    assert!(n > 0, "the mock store must have chats for this to mean anything");
    for _ in 0..(n + 20) {
        app_key(&mut app, Key::Down);
    }
    match &app.screen {
        Screen::Chats(l) => {
            assert!(l.state.selected < app.store.chats.len(), "selection left the list");
        }
        _ => panic!("the chat list should still be on screen"),
    }
    paint(&mut app);
}

fn no_page() -> proto::Dialogs {
    proto::Dialogs { dialogs: Vec::new(), messages: Vec::new(), names: Vec::new(), total: None }
}

#[test]
fn an_empty_second_page_ends_pagination_cleanly() {
    let mut app = App::mock();
    let before = app.store.chats.len();

    for _ in 0..(before + 5) {
        app_key(&mut app, Key::Down);
    }

    let empty = proto::Dialogs { total: Some(before as i32), ..no_page() };
    app.dialogs_from_top = false;
    app.on_answer(TAG_DIALOGS, Reply::Dialogs(Some(empty)), 1_700_000_000, 0);

    assert_eq!(app.store.chats.len(), before, "an empty page must add nothing");
    assert!(!app.store.dialogs_loading, "still claiming to load after the last page");
    assert!(app.store.dialogs_complete, "must stop asking, or every Down spends a request");
    paint(&mut app);
}

#[test]
fn sending_appends_a_pending_outgoing_message() {
    let mut app = App::mock();
    app_key(&mut app, Key::Select);

    let before = app.store.chats[0].messages.len();
    for ch in "teste".chars() {
        app_key(&mut app, Key::Char(ch));
    }
    app_key(&mut app, Key::Softkey(Softkey::Middle));

    let msgs = &app.store.chats[0].messages;
    assert_eq!(msgs.len(), before + 1);
    let last = msgs.last().unwrap();
    assert_eq!(last.text, "teste");
    assert!(last.outgoing);
    assert_eq!(last.state, Delivery::Pending);
}

#[test]
fn right_softkey_on_the_chat_list_asks_to_exit() {
    let mut app = App::mock();
    assert!(!app.should_exit);
    app_key(&mut app, Key::Softkey(Softkey::Right));
    assert!(app.should_exit);
}

fn password_screen(hint: &str) -> login::Screen {
    let mut field = Field::with_limit(128);
    field.masked = true;
    login::Screen::Password { field, hint: hint.to_string(), error: None }
}

fn code_screen() -> login::Screen {
    login::Screen::Code { field: Field::with_limit(8), length: Some(5), error: None }
}

/// Whether a rectangle lies within another, with its edges in order.
fn lies_in(r: &Rect, area: &Rect) -> bool {
    area.x0 <= r.x0 && r.x0 <= r.x1 && r.x1 <= area.x1 && area.y0 <= r.y0 && r.y0 <= r.y1 && r.y1 <= area.y1
}

/// Hold a frame to the screen: the bars where the frame has them, every clip within the content, and
/// whatever is painted outside a clip within the screen. How many things were painted.
fn held(ops: &[Op]) -> usize {
    let f = frame();
    let screen = Rect { x0: 0, y0: 0, x1: W, y1: H };
    let (mut clipped, mut titles, mut bars, mut painted) = (false, 0, 0, 0);
    for op in ops {
        let rect = match op {
            Op::Clear => continue,
            Op::Unclip => {
                assert!(clipped, "a clip is lifted that was not set");
                clipped = false;
                continue;
            }
            Op::Clip { rect } => {
                assert!(!clipped && lies_in(rect, &f.content), "{op:?}");
                clipped = true;
                continue;
            }
            Op::TitleBar { rect, .. } => {
                assert_eq!(*rect, f.title);
                titles += 1;
                *rect
            }
            Op::SoftkeyBar { rect, .. } => {
                assert_eq!(*rect, f.softkeys);
                bars += 1;
                *rect
            }
            Op::Placeholder { rect, .. }
            | Op::Text { rect, .. }
            | Op::Band { rect }
            | Op::Round { rect, .. }
            | Op::Stroke { rect, .. }
            | Op::Fill { rect, .. }
            | Op::Scrollbar { rect }
            | Op::Avatar { rect, .. }
            | Op::Selected { rect } => *rect,
            Op::TextAt { x, baseline, text, .. } => {
                Rect { x0: *x, y0: *baseline - 9, x1: *x + wide(text), y1: *baseline + 3 }
            }
            Op::Rule { y, x0, x1, .. } => Rect { x0: *x0, y0: *y, x1: *x1, y1: *y + 1 },
            Op::Marked { x, y0, y1, .. } => Rect { x0: *x, y0: *y0, x1: *x, y1: *y1 },
            Op::Badge { right, top, label, .. } => {
                Rect { x0: *right - wide(label), y0: *top, x1: *right, y1: *top + LINE + 2 }
            }
        };
        assert!(clipped || lies_in(&rect, &screen), "{op:?}");
        painted += 1;
    }
    assert!(!clipped, "the clip is lifted at the end");
    assert_eq!((titles, bars), (1, 1));
    painted
}

#[test]
fn drawing_every_screen_stays_inside_the_framebuffer() {
    let mut app = App::mock();
    assert!(held(&paint(&mut app)) > 2);
    for i in 0..app.store.chats.len() {
        let mut app = App::mock();
        for _ in 0..i {
            app_key(&mut app, Key::Down);
        }
        app_key(&mut app, Key::Select);
        assert_eq!(app.in_conversation(), Some(i));
        assert!(held(&paint(&mut app)) > 2);
    }

    let mut app = App::mock_login();
    assert!(held(&paint(&mut app)) > 2);
    app.login = Login::new(12345, "abcdef");
    app.login.code_sent = true;
    app.login.screen = code_screen();
    assert!(held(&paint(&mut app)) > 2);
    app.login.password_needed = true;
    app.login.screen = password_screen("");
    assert!(held(&paint(&mut app)) > 2);
}

// ---- the login ------------------------------------------------------------------------------------

fn login_key(l: &mut Login, key: Key) -> (Handled, LoginAction) {
    let edit = if l.asks_field(key) { Some(edited(l.field().unwrap(), key)) } else { None };
    l.handle_key(key, edit)
}

#[test]
fn drawing_every_login_screen_stays_inside_the_framebuffer() {
    let mut login = Login::new(12345, "abcdef");
    assert!(held(&paint_login(&login)) > 2);
    login.code_sent = true;
    login.screen = code_screen();
    assert!(held(&paint_login(&login)) > 2);
    login.password_needed = true;
    login.screen = password_screen("dica do usuário");
    assert!(held(&paint_login(&login)) > 2);
    login.screen = login::Screen::Phone {
        field: Field::with_limit(16),
        error: Some("Número não reconhecido".to_string()),
    };
    assert!(held(&paint_login(&login)) > 2);
    login.screen = login::Screen::Waiting("connecting…");
    assert!(held(&paint_login(&login)) > 2);
}

#[test]
fn phone_screen_accepts_only_digits_and_emits_send_code_on_confirm() {
    let mut login = Login::new(12345, "abcdef");

    let (h, a) = login_key(&mut login, Key::Char('a'));
    assert_eq!(h, Handled::Consumed);
    assert!(matches!(a, LoginAction::Nothing));

    login_key(&mut login, Key::Char('1'));
    login_key(&mut login, Key::Char('2'));
    match &login.screen {
        login::Screen::Phone { field, .. } => {
            assert_eq!(field.text, "12");
            assert!(!field.text.contains('a'));
        }
        _ => panic!(),
    }

    let (h, a) = login_key(&mut login, Key::Softkey(Softkey::Middle));
    assert_eq!(h, Handled::Consumed);
    match a {
        LoginAction::SendCode(number) => assert_eq!(number, "+12"),
        _ => panic!("expected SendCode, got {a:?}"),
    }
}

#[test]
fn send_code_produces_a_call() {
    let mut login = Login::new(12345, "abcdef");
    let p = login.ask_send_code("+5511999999999", Action::Call { body: vec![9], tag: 1 });
    match p {
        Progress::Call { tag, .. } => assert_eq!(tag, 1),
        other => panic!("expected Call, got {other:?}"),
    }
    assert_eq!(login.phone(), "+5511999999999");
    assert!(login.is_waiting());
}

#[test]
fn code_sent_transitions_to_the_code_screen() {
    let mut login = Login::new(12345, "abcdef");
    login.ask_send_code("+5511", Action::Call { body: vec![9], tag: 1 });
    let p = login.on_reply(Action::CodeSent { length: Some(5) });
    assert!(matches!(p, Progress::Nothing));
    assert!(matches!(login.screen, login::Screen::Code { .. }));
    assert!(login.code_sent);
}

#[test]
fn an_error_shows_on_the_current_screen() {
    let mut login = Login::new(12345, "abcdef");
    let p = login.on_error(Action::Failed(AuthError::PhoneNumberInvalid));
    assert!(matches!(p, Progress::Error(AuthError::PhoneNumberInvalid)));
    match &login.screen {
        login::Screen::Phone { error, .. } => {
            assert!(error.is_some());
        }
        _ => panic!(),
    }
}

#[test]
fn migration_returns_the_new_data_centre() {
    let mut login = Login::new(12345, "abcdef");
    let p = login.on_error(Action::Migrate(4));
    assert_eq!(p, Progress::Migrate(4));
    login.ask_send_code("+55", Action::Call { body: vec![9], tag: 1 });
    assert_eq!(login.phone(), "+55");
}

#[test]
fn flood_wait_shows_the_number_of_seconds() {
    let t = error_text(&AuthError::FloodWait(3600));
    assert!(t.contains("3600"), "the user must be told how long to wait: '{t}'");
    let t = error_text(&AuthError::FloodWait(86400));
    assert!(t.contains("86400"));
}

#[test]
fn password_is_masked_and_emits_submit_password_on_confirm() {
    let mut login = Login::new(12345, "abcdef");
    login.password_needed = true;
    login.screen = password_screen("");
    for ch in "hunter2".chars() {
        login_key(&mut login, Key::Char(ch));
    }
    assert_eq!(login.field().unwrap().text, "hunter2");
    assert_eq!(login.field().unwrap().display(), "*******");

    let (h, a) = login_key(&mut login, Key::Softkey(Softkey::Middle));
    assert_eq!(h, Handled::Consumed);
    match a {
        LoginAction::SubmitPassword(pw) => assert_eq!(pw, b"hunter2"),
        _ => panic!("expected SubmitPassword, got {a:?}"),
    }
}

#[test]
fn every_error_of_the_login_has_its_words() {
    assert_eq!(error_text(&AuthError::PhoneNumberInvalid), "Número não reconhecido pelo Telegram");
    assert_eq!(
        error_text(&AuthError::PhoneCodeInvalid),
        "Código incorreto. Verifique e tente de novo"
    );
    assert_eq!(
        error_text(&AuthError::PhoneCodeExpired),
        "O código expirou. Solicite um novo e tente de novo"
    );
    assert_eq!(error_text(&AuthError::PasswordInvalid), "Senha incorreta");
    assert_eq!(
        error_text(&AuthError::FloodWait(30)),
        "Muitas tentativas. Aguarde 30 segundos"
    );
    assert_eq!(
        error_text(&AuthError::SignUpRequired),
        "Este número não tem conta. Este cliente não pode criar uma"
    );
    assert_eq!(error_text(&AuthError::ApiIdInvalid), "Erro de configuração (api_id inválido)");
    assert_eq!(error_text(&AuthError::Other("RPC".to_string())), "RPC");
}

#[test]
fn a_waiting_screen_leads_back_to_the_phone() {
    let mut login = Login::new(12345, "abcdef");
    login.screen = login::Screen::Waiting("signing in");
    let (h, a) = login_key(&mut login, Key::Softkey(Softkey::Right));
    assert_eq!(h, Handled::Consumed);
    assert!(matches!(a, LoginAction::Nothing));
    assert!(matches!(login.screen, login::Screen::Phone { .. }));
    let (_, a) = login_key(&mut login, Key::Softkey(Softkey::Right));
    assert!(matches!(a, LoginAction::Back), "and from there out");
}

// ---- model, update and view -----------------------------------------------------------------------

/// A host: the model, the scene it last described, whether it was asked to close, and what the log
/// was last set to.
struct Shell {
    model: Model,
    scene: Option<Scene>,
    exit: bool,
    log: Option<bool>,
}

impl Shell {
    fn new(app: App) -> Shell {
        Shell { model: Model::new(app, false), scene: None, exit: false, log: None }
    }

    fn app(&self) -> &App {
        &self.model.app
    }

    fn send(&mut self, msg: Msg) {
        let (cmd, fx) = Tg::update(&mut self.model, msg, &atlas(), NOW, 0);
        if cmd == Cmd::Exit {
            self.exit = true;
        }
        for d in &fx {
            if let Do::Log(on) = d {
                self.log = Some(*on);
            }
        }
        carry_out(&mut self.model.app, fx);
        self.scene = None;
    }

    fn draw(&mut self) -> &Scene {
        lay_front(&mut self.model.app);
        if self.scene.is_none() {
            self.scene = Some(Tg::view(&self.model, W, &METRICS, words()));
        }
        self.scene.as_ref().unwrap()
    }

    fn press(&mut self, key: Key) -> Handled {
        if let Some(msg) = Tg::on_key(&self.model, key, slot(key), words()) {
            self.send(msg);
            return Handled::Consumed;
        }
        lay_front(&mut self.model.app);
        let answer = if self.model.on_menu {
            Answer::Moved(listed(
                ListState { selected: self.model.menu_selected, scroll: 0 },
                &[METRICS.row_h, METRICS.row_h],
                content_h(),
                key,
            ))
        } else {
            answer_for(&self.model.app, key)
        };
        let (handled, msg, fx) = Tg::leaf_key(
            &mut self.model,
            key,
            answer,
            &atlas(),
            METRICS.row_h,
            content_h(),
        );
        carry_out(&mut self.model.app, fx);
        if let Some(msg) = msg {
            self.send(msg);
        }
        handled
    }

    fn with_app(&mut self, f: impl FnOnce(&mut App)) {
        f(&mut self.model.app);
        self.send(Msg::Touched);
    }

    fn labels(&mut self) -> [Option<&'static str>; 3] {
        match self.draw() {
            Scene::Menu(x) => x.labels,
            Scene::Chats(x) => x.labels,
            Scene::Login(x) => x.labels,
            Scene::Conversation(x) => x.labels,
            Scene::Viewer(x) => x.labels,
        }
    }
}

fn shell() -> Shell {
    let mut s = Shell::new(App::mock());
    s.draw();
    s
}

#[test]
fn the_cursor_moves_through_update_and_the_list_reports_it() {
    let mut shell = shell();
    assert_eq!(shell.model.chats_selected(), 0);
    assert_eq!(shell.press(Key::Down), Handled::Consumed);
    assert_eq!(shell.model.chats_selected(), 1, "the list's report never reached update");
    assert_eq!(shell.press(Key::Up), Handled::Consumed);
    assert_eq!(shell.model.chats_selected(), 0);
}

#[test]
fn mvu_the_green_key_opens_the_highlighted_chat() {
    let mut shell = shell();
    shell.press(Key::Down);
    assert_eq!(shell.press(Key::Call), Handled::Consumed);
    assert_eq!(shell.app().in_conversation(), Some(1));
}

#[test]
fn the_left_softkey_opens_the_options_menu() {
    let mut shell = shell();
    assert_eq!(shell.press(Key::Softkey(Softkey::Left)), Handled::Consumed);
    assert!(shell.model.on_menu, "the left key is Opções now, not Atualizar");
    assert_eq!(shell.model.menu_selected, 0);
    assert_eq!(shell.press(Key::Softkey(Softkey::Middle)), Handled::Consumed);
    assert_eq!(shell.app().store.status, strings::no_connection(Lang::En));
    assert!(!shell.model.on_menu, "and a refresh closes the menu over its own answer");
}

#[test]
fn the_log_entry_toggles_and_keeps_the_menu_open() {
    let mut shell = shell();
    shell.press(Key::Softkey(Softkey::Left));
    shell.press(Key::Down);
    let was = shell.model.debug_log;
    let before = menu_decl::label(menu_decl::Action::DebugLog, was, Lang::En);

    shell.press(Key::Softkey(Softkey::Middle));

    let now = shell.model.debug_log;
    assert_eq!(now, !was);
    assert_ne!(menu_decl::label(menu_decl::Action::DebugLog, now, Lang::En), before);
    assert!(shell.model.on_menu, "the label it just changed is on this screen");

    assert_eq!(shell.log, Some(now), "and the log follows the label");
    shell.press(Key::Softkey(Softkey::Middle));
    assert_eq!((shell.model.debug_log, shell.log), (was, Some(was)));
}

#[test]
fn leaving_the_menu_changes_nothing() {
    let mut shell = shell();
    let status = shell.app().store.status.clone();
    shell.press(Key::Softkey(Softkey::Left));
    let was = shell.model.debug_log;
    shell.press(Key::Softkey(Softkey::Right));
    assert!(!shell.model.on_menu);
    assert_eq!(shell.model.debug_log, was);
    assert_eq!(shell.app().store.status, status, "and nothing was asked of the server");
}

#[test]
fn leaving_a_conversation_shows_the_list_rather_than_nothing() {
    let mut shell = shell();
    shell.press(Key::Down);
    shell.press(Key::Select);
    assert_eq!(shell.app().in_conversation(), Some(1));
    shell.draw();

    shell.press(Key::Softkey(Softkey::Right));
    assert!(matches!(shell.app().screen, Screen::Chats(_)));

    match shell.draw() {
        Scene::Chats(l) => match &l.body {
            chats_decl::Body::List { rows, .. } => assert!(!rows.is_empty()),
            _ => panic!("the dialog list drew nothing at all"),
        },
        _ => panic!("the dialog list drew nothing at all"),
    }
}

#[test]
fn a_key_nobody_wanted_changes_nothing() {
    let mut shell = shell();
    assert_eq!(shell.press(Key::Char('q')), Handled::Ignored);
    assert_eq!(shell.model.chats_selected(), 0);
    assert!(!shell.exit);
}

#[test]
fn sair_on_the_list_closes_the_application() {
    let mut shell = shell();
    assert!(!shell.exit);
    shell.press(Key::Softkey(Softkey::Right));
    assert!(shell.exit);
}

fn login_shell() -> Shell {
    let mut s = Shell::new(App::mock_login());
    s.with_app(|a| a.login.show_phone());
    s.draw();
    s
}

#[test]
fn typing_reaches_the_phone_field_and_a_letter_does_not() {
    let mut shell = login_shell();
    for ch in "1a2".chars() {
        shell.press(Key::Char(ch));
    }
    let field = shell.app().login.field().expect("the phone screen has a field");
    assert_eq!(field.text, "12", "a letter reached a digits-only field");
}

#[test]
fn the_middle_softkey_submits_what_was_typed() {
    let mut shell = login_shell();
    for ch in "11999990000".chars() {
        shell.press(Key::Char(ch));
    }
    shell.press(Key::Select);
    assert!(shell.app().login.is_waiting(), "the number was not submitted");
    assert_eq!(shell.app().login.phone(), "+11999990000");
}

#[test]
fn a_key_the_login_screen_does_not_want_is_left_alone() {
    let mut shell = login_shell();
    assert_eq!(shell.press(Key::Up), Handled::Ignored);
    assert_eq!(shell.press(Key::Down), Handled::Ignored);
}

#[test]
fn the_password_screen_toggles_its_own_mask() {
    let mut shell = login_shell();
    shell.with_app(|a| a.login.screen = password_screen("dica"));
    shell.draw();
    for ch in "hunter2".chars() {
        shell.press(Key::Char(ch));
    }
    assert_eq!(shell.app().login.field().unwrap().display(), "*******");
    shell.press(Key::Softkey(Softkey::Left));
    assert_eq!(shell.app().login.field().unwrap().display(), "hunter2", "the eye did not open");
    shell.press(Key::Softkey(Softkey::Left));
    assert_eq!(shell.app().login.field().unwrap().display(), "*******");
}

#[test]
fn the_red_key_leaves_from_every_screen() {
    let fronts = [("the dialog list", App::mock()), ("a login screen", App::mock_login())];
    for (what, app) in fronts {
        let mut shell = Shell::new(app);
        shell.draw();
        assert!(!shell.exit, "{what} wanted to exit before being asked");
        assert_eq!(shell.press(Key::End), Handled::Consumed, "{what}");
        assert!(shell.exit, "{what} did not close on the red key");
    }
}

fn conv_shell() -> Shell {
    let mut s = shell();
    s.press(Key::Select);
    assert_eq!(s.app().in_conversation(), Some(0), "the chat did not open");
    s.draw();
    s
}

#[test]
fn the_first_character_typed_makes_the_bar_offer_to_send_it() {
    let mut shell = conv_shell();
    let empty_bar = shell.labels();
    shell.press(Key::Char('o'));
    let typed_bar = shell.labels();
    assert_ne!(empty_bar, typed_bar, "the bar did not gain a label for the text just typed");

    shell.press(Key::Backspace);
    assert_eq!(shell.labels(), empty_bar, "the label outstayed the text");
}

#[test]
fn a_note_the_transcript_wrote_reaches_the_title_bar() {
    let mut shell = conv_shell();
    shell.with_app(|a| {
        a.store.chats[0].windowed = true;
        a.store.chats[0].complete = false;
    });
    shell.draw();
    shell.press(Key::Up);
    for _ in 0..40 {
        shell.press(Key::Up);
    }
    let note = match &shell.app().screen {
        Screen::Conversation(c) => c.note.clone(),
        _ => None,
    };
    assert_eq!(note.as_deref(), Some(strings::start_of_stored(Lang::En)));
    match shell.draw() {
        Scene::Conversation(x) => assert_eq!(x.detail, note),
        _ => panic!("the conversation is in front"),
    }
}

#[test]
fn the_action_key_follows_the_focus() {
    let mut shell = conv_shell();
    for ch in "oi".chars() {
        shell.press(Key::Char(ch));
    }
    shell.press(Key::Up);
    shell.press(Key::Select);
    let text = match &shell.app().screen {
        Screen::Conversation(c) => c.composer.text.clone(),
        _ => String::new(),
    };
    assert_eq!(text, "oi", "the transcript's action key sent the composer's text");

    let before = shell.app().store.chats[0].messages.len();
    shell.press(Key::Down);
    shell.press(Key::Select);
    assert_eq!(shell.app().store.chats[0].messages.len(), before + 1);
    match &shell.app().screen {
        Screen::Conversation(c) => assert!(c.composer.is_empty()),
        _ => panic!("the conversation is in front"),
    }
}

#[test]
fn leaving_the_conversation_returns_to_the_chat_it_was_opened_from() {
    let mut shell = conv_shell();
    shell.press(Key::Softkey(Softkey::Right));
    assert_eq!(shell.model.chats_selected(), 0);
}

#[test]
fn a_change_made_behind_the_bridge_shows_up_on_the_next_frame() {
    let mut shell = shell();
    let before = match shell.draw() {
        Scene::Chats(x) => x.detail.clone(),
        _ => panic!("the list is in front"),
    };
    shell.with_app(|a| a.store.status = "recebido".to_string());
    let after = match shell.draw() {
        Scene::Chats(x) => x.detail.clone(),
        _ => panic!("the list is in front"),
    };
    assert_ne!(before, after, "the frame after the change was built from the model before it");
}

#[test]
fn a_picture_leads_back_to_its_conversation() {
    let mut app = App::mock();
    app.screen = Screen::Viewer(2);
    let mut shell = Shell::new(app);
    match shell.draw() {
        Scene::Viewer(x) => assert_eq!(x.title, "Photo"),
        _ => panic!("the picture is in front"),
    }
    shell.press(Key::Softkey(Softkey::Right));
    assert_eq!(shell.app().in_conversation(), Some(2));
}

#[test]
fn a_message_of_the_list_counts_whatever_is_in_front() {
    let mut shell = shell();
    let chats = shell.app().store.chats.len();
    shell.send(Msg::Chats(chats_decl::Msg::Select(chats + 40)));
    assert_eq!(shell.model.chats_selected(), chats - 1, "kept inside the list");

    shell.send(Msg::Chats(chats_decl::Msg::Open));
    assert_eq!(shell.app().in_conversation(), Some(chats - 1));
    assert_eq!(shell.model.chats_selected(), chats - 1);
    shell.send(Msg::Chats(chats_decl::Msg::Select(2)));
    assert_eq!(shell.app().in_conversation(), Some(chats - 1), "the screen stays");
    assert_eq!(shell.model.chats_selected(), 2);
    shell.send(Msg::Chats(chats_decl::Msg::Open));
    assert_eq!(shell.app().in_conversation(), Some(2));
    assert!(!shell.exit);
}

#[test]
fn a_message_of_the_menu_counts_whether_it_is_open_or_not() {
    let mut shell = shell();
    shell.send(Msg::Menu(menu_decl::Msg::Select(9)));
    assert_eq!(shell.model.menu_selected, 1, "kept inside the menu");
    shell.send(Msg::Menu(menu_decl::Msg::Run));
    assert_eq!((shell.model.debug_log, shell.log), (true, Some(true)));
    assert!(!shell.model.on_menu);

    shell.send(Msg::Menu(menu_decl::Msg::Select(0)));
    shell.send(Msg::Menu(menu_decl::Msg::Run));
    assert_eq!(shell.app().store.status, strings::no_connection(Lang::En));

    shell.send(Msg::Menu(menu_decl::Msg::Select(1)));
    shell.send(Msg::Chats(chats_decl::Msg::Options));
    assert_eq!((shell.model.on_menu, shell.model.menu_selected), (true, 0));
}

#[test]
fn a_message_for_a_conversation_that_is_gone_comes_to_nothing() {
    let mut shell = shell();
    let status = shell.app().store.status.clone();
    shell.send(Msg::Conv(telegram::conv_decl::Msg::Send));
    assert!(matches!(shell.app().screen, Screen::Chats(_)));
    assert_eq!(shell.app().store.status, status);
    assert!(!shell.exit);
}

#[test]
fn a_login_that_is_over_stays_over() {
    let mut login = Login::new(12345, "abcdef");
    assert!(!login.is_authorized());
    assert_eq!(login.on_modpow(Action::Call { body: vec![1], tag: 4 }), Progress::Call { body: vec![1], tag: 4 });
    assert!(!login.is_authorized());
    assert_eq!(login.on_reply(Action::Authorized), Progress::Authorized);
    assert!(login.is_authorized());
    login.on_error(Action::Failed(AuthError::PasswordInvalid));
    assert!(login.is_authorized());
}

#[test]
fn a_layout_reaches_as_far_as_its_numbers_do() {
    let mut chat = Chat::default();
    chat.messages.push(Message {
        id: 1,
        text: "oi".to_string(),
        outgoing: false,
        time: "10:00".to_string(),
        state: Delivery::Read,
        media: None,
    });
    let x = vec![Measured {
        lines: vec![Line { start: 0, end: 2, width: 30_000_000 }],
        time_w: 10,
        state_w: 0,
        links: Vec::new(),
    }];
    let t = Transcript::build(&chat, &x, Heights { body: 2_000_000_000, small: 7 }, 50_000_000);
    assert_eq!(t.laid[0].bubble_w, 30_000_028);
    assert!(t.laid[0].time_inline, "there is room beside it");
    assert_eq!(t.height(0), 2_000_000_011);

    let all = Transcript::build(&chat, &x, heights(), i32::MAX);
    assert_eq!(all.laid[0].bubble_w, 30_000_028);
    let none = Transcript::build(&chat, &x, heights(), i32::MIN);
    assert_eq!(none.laid[0].bubble_w, 40, "never narrower than this");
    assert!(!none.laid[0].time_inline);
}

#[test]
fn the_walk_over_links_is_the_same_backwards() {
    let mut chat = Chat::default();
    chat.messages.push(Message {
        id: 1,
        text: "https://a.b https://c.d".to_string(),
        outgoing: false,
        time: "10:00".to_string(),
        state: Delivery::Read,
        media: None,
    });
    let mut c = Conversation::new(0);
    assert_eq!(c.ensure_layout(&chat, W, &measured(&chat, W), heights(), None), Placement::End);
    assert_eq!((c.step_link(true), c.link), (true, Some(0)));
    assert_eq!((c.step_link(true), c.link), (true, Some(1)));
    assert_eq!((c.step_link(false), c.link), (true, Some(0)));
    assert_eq!((c.step_link(false), c.link), (true, None));
    assert_eq!((c.step_link(false), c.link), (false, None), "there is nothing above the message");
}
