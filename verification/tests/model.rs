//! The model: windows, pages, previews and what is picked out of a message.

use telegram::app::App;
use telegram::model::{
    hhmm, media_from_proto, merge_dialogs, merge_history, pick_size, push_message, refresh_media,
    store_from_dialogs, trim_window, window_previews, Chat, Delivery, Media, MediaKind, Message,
    PeerRef, Store,
};
use telegram::pages::{inline_preview, CHAT_WINDOW, DIALOG_LIMIT};
use telegram::previews::{preview_ask, PreviewAsk, PreviewDone, PREVIEW_BAND};
use telegram::proto;

fn filled(n: usize) -> Chat {
    let mut c = Chat { name: "x".to_string(), ..Default::default() };
    for i in 1..=n {
        c.messages.push(Message {
            id: i as i32,
            text: format!("m{i}"),
            outgoing: false,
            time: "10:00".to_string(),
            state: Delivery::Read,
            media: None,
        });
    }
    c.oldest = 1;
    c
}

fn no_page() -> proto::Dialogs {
    proto::Dialogs { dialogs: Vec::new(), messages: Vec::new(), names: Vec::new(), total: None }
}

fn proto_message(id: i32, peer: proto::Peer, date: i32, text: String) -> proto::Message {
    proto::Message { id, peer, out: false, date, text, service: false, media: None }
}

/// A page of dialogs listing `ids` as users, with a top message for each.
fn dialog_page(ids: &[i64]) -> proto::Dialogs {
    let mut d = no_page();
    for (n, &id) in ids.iter().enumerate() {
        let peer = proto::Peer { kind: proto::Kind::User, id };
        let top = 1000 + n as i32;
        let date = 1_700_000_000 + n as i32;
        d.dialogs.push(proto::Dialog {
            peer,
            top_message: top,
            unread: 0,
            top: Some(proto_message(top, peer, date, format!("oi {id}"))),
            access_hash: id * 7,
        });
        d.messages.push(proto_message(top, peer, date, format!("oi {id}")));
        d.names.push(proto::Named { peer, title: format!("Contato {id}") });
    }
    d.total = Some(ids.len() as i32);
    d
}

#[test]
fn the_same_page_arriving_twice_adds_nothing_the_second_time() {
    let page = dialog_page(&[1, 2, 3]);
    let mut store = Store::default();

    assert_eq!(merge_dialogs(&mut store, &page, 0, 0), 3);
    assert_eq!(store.chats.len(), 3);

    assert_eq!(merge_dialogs(&mut store, &page, 0, 0), 0, "every dialog is already held");
    assert_eq!(store.chats.len(), 3, "the list must not double");
}

#[test]
fn a_page_of_only_known_dialogs_ends_the_list() {
    let page = dialog_page(&[1, 2]);
    let mut store = Store::default();
    merge_dialogs(&mut store, &page, 0, 0);
    assert!(!store.dialogs_complete, "a full first page is not the end");

    merge_dialogs(&mut store, &page, 0, 0);
    assert!(store.dialogs_complete, "a page with nothing new is the end");
    assert!(!store.dialogs_loading);
}

#[test]
fn a_page_of_new_dialogs_still_appends() {
    let mut store = Store::default();
    merge_dialogs(&mut store, &dialog_page(&[1, 2]), 0, 0);
    assert_eq!(merge_dialogs(&mut store, &dialog_page(&[3, 4]), 0, 0), 2);
    assert_eq!(store.chats.len(), 4);
    assert!(!store.dialogs_complete);
}

#[test]
fn an_overlapping_page_keeps_only_what_is_new() {
    let mut store = Store::default();
    merge_dialogs(&mut store, &dialog_page(&[1, 2, 3]), 0, 0);
    assert_eq!(merge_dialogs(&mut store, &dialog_page(&[3, 4, 5]), 0, 0), 2);
    assert_eq!(store.chats.len(), 5);
    let ids: Vec<i64> = store.chats.iter().filter_map(|c| c.peer.map(|p| p.id)).collect();
    assert_eq!(ids, vec![1, 2, 3, 4, 5]);
}

/// A page of history for `peer` carrying ids `from` down to `to`, newest first.
fn page(peer: PeerRef, from: i32, to: i32) -> proto::Dialogs {
    let p = proto::Peer { kind: peer.kind, id: peer.id };
    let messages =
        (to..=from).rev().map(|id| proto_message(id, p, 0, format!("m{id}"))).collect();
    proto::Dialogs { messages, ..no_page() }
}

fn peer() -> PeerRef {
    PeerRef { kind: proto::Kind::User, id: 7, access_hash: 9 }
}

#[test]
fn the_hundred_and_first_message_pushes_the_oldest_out() {
    let mut c = filled(CHAT_WINDOW);
    let dropped = push_message(
        &mut c,
        Message {
            id: 999,
            text: "novo".to_string(),
            outgoing: true,
            time: "10:01".to_string(),
            state: Delivery::Pending,
            media: None,
        },
    );
    assert_eq!(dropped, 1, "one out for one in");
    assert_eq!(c.messages.len(), CHAT_WINDOW, "and the window did not grow");
    assert_eq!(c.messages.first().map(|m| m.id), Some(2), "the oldest is the one that left");
    assert_eq!(c.messages.last().map(|m| m.id), Some(999));
}

#[test]
fn trimming_moves_the_pagination_cursor_to_a_message_still_held() {
    let mut c = filled(CHAT_WINDOW + 5);
    assert_eq!(c.oldest, 1);
    let dropped = trim_window(&mut c);
    assert_eq!(dropped, 5);
    assert_eq!(c.messages.len(), CHAT_WINDOW);
    assert_eq!(c.oldest, 6, "the oldest retained, not the oldest ever seen");
    assert!(c.windowed);
}

#[test]
fn a_page_of_history_below_the_window_is_kept_whole() {
    let mut c = filled(10);
    c.oldest = 1;
    let n = merge_history(&mut c, &page(peer(), 0, -9), peer(), 0);
    assert_eq!(n, 10, "all ten retained");
    assert_eq!(c.messages.len(), 20);
    assert_eq!(c.messages.first().map(|m| m.id), Some(-9), "oldest first on screen");
    assert_eq!(c.oldest, -9);
    assert!(!c.windowed);
}

#[test]
fn a_full_chat_refuses_a_page_of_older_messages_instead_of_looping() {
    let mut c = filled(CHAT_WINDOW);
    c.loading = true;
    let n = merge_history(&mut c, &page(peer(), 0, -19), peer(), 0);
    assert_eq!(n, 0);
    assert!(c.windowed, "so the screen stops asking");
    assert!(!c.complete, "the server still has more");
    assert!(!c.loading);
    assert_eq!(c.messages.len(), CHAT_WINDOW);
    assert_eq!(c.messages.first().map(|m| m.id), Some(1), "nothing was displaced");
}

#[test]
fn a_page_that_overshoots_the_window_reports_only_what_was_retained() {
    let mut c = filled(CHAT_WINDOW - 5);
    c.oldest = 1;
    let n = merge_history(&mut c, &page(peer(), 0, -19), peer(), 0);
    assert_eq!(c.messages.len(), CHAT_WINDOW);
    assert_eq!(n, 5, "twenty arrived, five fit");
    assert_eq!(c.messages.first().map(|m| m.id), Some(-4));
    assert_eq!(c.oldest, -4);
}

#[test]
fn a_refresh_appends_only_what_is_new_and_never_a_second_copy() {
    let mut c = filled(5);
    let n = merge_history(&mut c, &page(peer(), 7, 3), peer(), 0);
    assert_eq!(n, 0, "nothing was prepended, so the selection does not move");
    let ids: Vec<i32> = c.messages.iter().map(|m| m.id).collect();
    assert_eq!(ids, vec![1, 2, 3, 4, 5, 6, 7], "in order, each exactly once");
}

#[test]
fn a_page_that_is_entirely_already_held_changes_nothing() {
    let mut c = filled(5);
    let n = merge_history(&mut c, &page(peer(), 5, 1), peer(), 0);
    assert_eq!(n, 0);
    assert_eq!(c.messages.len(), 5);
    assert!(!c.complete, "the page was not empty");
}

#[test]
fn a_full_chat_still_accepts_messages_that_are_new() {
    let mut c = filled(CHAT_WINDOW);
    let n = merge_history(
        &mut c,
        &page(peer(), CHAT_WINDOW as i32 + 2, CHAT_WINDOW as i32 + 1),
        peer(),
        0,
    );
    assert_eq!(n, 0, "appended, not prepended");
    assert_eq!(c.messages.len(), CHAT_WINDOW);
    assert_eq!(c.messages.last().map(|m| m.id), Some(CHAT_WINDOW as i32 + 2));
    assert_eq!(c.messages.first().map(|m| m.id), Some(3), "two off the front for two on");
}

#[test]
fn the_first_load_of_a_conversation_fills_it_in_reading_order() {
    let mut c = Chat { name: "x".to_string(), ..Default::default() };
    let n = merge_history(&mut c, &page(peer(), 5, 1), peer(), 0);
    assert_eq!(n, 0, "nothing was displaced, so nothing shifts");
    let ids: Vec<i32> = c.messages.iter().map(|m| m.id).collect();
    assert_eq!(ids, vec![1, 2, 3, 4, 5], "oldest at the top");
    assert_eq!(c.oldest, 1);
}

#[test]
fn a_pending_message_does_not_become_the_pagination_cursor() {
    let mut c = filled(3);
    push_message(
        &mut c,
        Message {
            id: 0,
            text: "enviando".to_string(),
            outgoing: true,
            time: "10:01".to_string(),
            state: Delivery::Pending,
            media: None,
        },
    );
    merge_history(&mut c, &page(peer(), 6, 4), peer(), 0);
    assert_eq!(c.oldest, 1, "the oldest real id, not the pending zero");
}

#[test]
fn an_empty_page_still_ends_the_conversation() {
    let mut c = filled(3);
    let n = merge_history(&mut c, &page(peer(), 0, 1), peer(), 0);
    assert_eq!(n, 0);
    assert!(c.complete, "nothing above this");
}

#[test]
fn the_dialog_list_stops_growing_at_the_cap() {
    let mut store = Store {
        chats: (0..DIALOG_LIMIT).map(|_| Chat::default()).collect(),
        ..Default::default()
    };
    let d = proto::Dialogs {
        dialogs: vec![proto::Dialog {
            peer: proto::Peer { kind: proto::Kind::User, id: 1 },
            top_message: 1,
            unread: 0,
            top: None,
            access_hash: 0,
        }],
        ..no_page()
    };
    assert_eq!(merge_dialogs(&mut store, &d, 0, 0), 0);
    assert_eq!(store.chats.len(), DIALOG_LIMIT);
    assert!(store.dialogs_complete, "and it stops asking for the page it would refuse");
}

fn with_previews(n: usize) -> Chat {
    let mut c = filled(n);
    for (i, m) in c.messages.iter_mut().enumerate() {
        m.media = Some(Media::Photo {
            id: i as i64 + 1,
            access_hash: 0,
            file_reference: Vec::new(),
            dc_id: 2,
            thumb_size: "m".to_string(),
            size: 10,
            preview: Some(vec![0xFF, 0xD8, i as u8]),
        });
    }
    c
}

fn held(c: &Chat) -> usize {
    c.messages.iter().filter(|m| m.media.as_ref().and_then(|x| x.preview()).is_some()).count()
}

/// A disk of previews, which takes what it is given unless it is broken.
struct Disk {
    files: Vec<(i64, Vec<u8>)>,
    broken: bool,
}

fn window_on(c: &mut Chat, selected: usize, disk: &mut Disk) -> usize {
    let mut done = Vec::new();
    for i in 0..c.messages.len() {
        done.push(match preview_ask(c, i, selected) {
            PreviewAsk::Nothing => PreviewDone::Nothing,
            PreviewAsk::Read(id) => {
                PreviewDone::Read(disk.files.iter().find(|f| f.0 == id).map(|f| f.1.clone()))
            }
            PreviewAsk::Write(id) => {
                if !disk.broken {
                    let bytes =
                        c.messages[i].media.as_ref().unwrap().preview().unwrap().to_vec();
                    disk.files.push((id, bytes));
                }
                PreviewDone::Written(!disk.broken)
            }
        });
    }
    window_previews(c, selected, done)
}

#[test]
fn previews_far_from_the_selection_are_freed_and_the_near_ones_kept() {
    let mut fs = Disk { files: Vec::new(), broken: false };
    let mut c = with_previews(CHAT_WINDOW);
    assert_eq!(held(&c), CHAT_WINDOW);

    let freed = window_on(&mut c, 0, &mut fs);
    assert_eq!(freed, CHAT_WINDOW - (PREVIEW_BAND + 1));
    assert_eq!(held(&c), PREVIEW_BAND + 1, "the selection and the band below it");
    assert!(c.messages[0].media.as_ref().unwrap().preview().is_some());
    assert!(c.messages[CHAT_WINDOW - 1].media.as_ref().unwrap().preview().is_none());
}

#[test]
fn a_freed_preview_comes_back_when_the_selection_reaches_it_again() {
    let mut fs = Disk { files: Vec::new(), broken: false };
    let mut c = with_previews(CHAT_WINDOW);
    window_on(&mut c, 0, &mut fs);
    let last = CHAT_WINDOW - 1;
    assert!(c.messages[last].media.as_ref().unwrap().preview().is_none());

    window_on(&mut c, last, &mut fs);
    assert_eq!(
        c.messages[last].media.as_ref().unwrap().preview(),
        Some(&[0xFFu8, 0xD8, last as u8][..]),
        "the same bytes, not someone else's"
    );
    assert!(c.messages[0].media.as_ref().unwrap().preview().is_none(), "and the far end went");
}

#[test]
fn a_preview_whose_write_fails_stays_in_memory() {
    let mut c = with_previews(CHAT_WINDOW);
    let freed = window_on(&mut c, 0, &mut Disk { files: Vec::new(), broken: true });
    assert_eq!(freed, 0);
    assert_eq!(held(&c), CHAT_WINDOW, "nothing was lost to a disk that would not take it");
}

#[test]
fn a_dialog_with_no_preview_message_shows_no_time() {
    assert_eq!(hhmm(0, 0), "");
    assert_eq!(hhmm(-1, 0), "");
}

fn photo(size: i64) -> Media {
    Media::Photo {
        id: 1,
        access_hash: 2,
        file_reference: Vec::new(),
        dc_id: 2,
        thumb_size: "m".to_string(),
        size,
        preview: None,
    }
}

fn with_last(text: &str, media: Option<Media>) -> Chat {
    Chat {
        name: "x".to_string(),
        messages: vec![Message {
            id: 1,
            text: text.to_string(),
            outgoing: false,
            time: "10:00".to_string(),
            state: Delivery::Read,
            media,
        }],
        ..Default::default()
    }
}

fn size_of(kind: &str, w: i32, h: i32, progressive: bool) -> proto::SizeOption {
    proto::SizeOption {
        kind: kind.to_string(),
        w,
        h,
        size: w * h / 10,
        inline: None,
        complete: false,
        progressive,
    }
}

#[test]
fn a_baseline_size_beats_a_progressive_one_that_fits_better() {
    let sizes = vec![
        size_of("x", 800, 600, true),
        size_of("m", 320, 240, false),
        size_of("s", 90, 67, false),
    ];
    let picked = pick_size(&sizes, 320, 240).unwrap();
    assert_eq!(picked.kind, "m");
    assert!(!picked.progressive);
}

#[test]
fn a_progressive_size_is_still_tried_when_it_is_the_only_one() {
    let sizes = vec![size_of("y", 1280, 960, true)];
    let picked = pick_size(&sizes, 320, 240).unwrap();
    assert_eq!(picked.kind, "y");
    assert!(picked.progressive);
}

#[test]
fn the_smallest_size_that_still_covers_the_screen_wins() {
    let sizes = vec![
        size_of("s", 90, 67, false),
        size_of("m", 320, 240, false),
        size_of("x", 800, 600, false),
        size_of("y", 1280, 960, false),
    ];
    assert_eq!(pick_size(&sizes, 320, 240).unwrap().kind, "m");
}

#[test]
fn a_photo_smaller_than_the_screen_still_picks_its_largest() {
    let sizes = vec![size_of("s", 90, 67, false), size_of("m", 160, 120, false)];
    assert_eq!(pick_size(&sizes, 320, 240).unwrap().kind, "m");
}

#[test]
fn a_truncated_download_is_recognisable_before_the_codec_sees_it() {
    let whole = [0xFFu8, 0xD8, 0x11, 0x22, 0xFF, 0xD9];
    assert!(App::describe_bytes(&whole).contains("SOI+EOI"));

    let cut = [0xFFu8, 0xD8, 0x11, 0x22];
    let s = App::describe_bytes(&cut);
    assert!(s.contains("SOI"));
    assert!(s.contains("NO-EOI"), "{s}");

    assert!(App::describe_bytes(&[1, 2, 3]).contains("no-SOI"));
    assert!(App::describe_bytes(&[]).contains("no-SOI"));
}

#[test]
fn a_media_only_chat_says_what_the_attachment_is() {
    assert_eq!(with_last("", Some(photo(0))).preview(), "Foto");
    assert_eq!(
        with_last(
            "",
            Some(Media::Voice {
                id: 1,
                access_hash: 0,
                file_reference: Vec::new(),
                dc_id: 2,
                duration: 7,
                waveform: None,
                size: 0,
            })
        )
        .preview(),
        "Mensagem de voz"
    );
    assert_eq!(
        with_last(
            "",
            Some(Media::Sticker {
                id: 1,
                access_hash: 0,
                file_reference: Vec::new(),
                dc_id: 2,
                alt: "\u{1F44D}".to_string(),
                preview: None,
            })
        )
        .preview(),
        "Sticker"
    );
}

#[test]
fn a_caption_wins_over_the_attachment_label() {
    assert_eq!(with_last("olha isso", Some(photo(0))).preview(), "olha isso");
}

#[test]
fn a_chat_with_no_messages_still_has_no_preview() {
    assert_eq!(Chat::default().preview(), "");
    assert_eq!(with_last("", None).preview(), "");
}

#[test]
fn the_cache_key_is_the_file_id_for_every_kind() {
    assert_eq!(photo(0).file_id(), 1);
    assert_eq!(
        Media::File {
            id: 99,
            access_hash: 0,
            file_reference: Vec::new(),
            dc_id: 2,
            filename: String::new(),
            size: 0,
        }
        .file_id(),
        99
    );
    assert_eq!(Media::Unknown.file_id(), 0);
}

#[test]
fn a_sticker_is_never_fetchable_and_a_sizeless_photo_is_not_either() {
    assert!(!Media::Sticker {
        id: 1,
        access_hash: 0,
        file_reference: Vec::new(),
        dc_id: 2,
        alt: String::new(),
        preview: None,
    }
    .is_fetchable());

    let mut p = photo(0);
    if let Media::Photo { thumb_size, .. } = &mut p {
        thumb_size.clear();
    }
    assert!(!p.is_fetchable(), "no size type means nothing to ask for");
    assert!(photo(0).is_fetchable());
}

#[test]
fn times_render_as_two_digits_each() {
    assert_eq!(hhmm(9 * 3600 + 5 * 60, 0), "09:05");
    assert_eq!(hhmm(23 * 3600 + 59 * 60, 0), "23:59");
    assert_eq!(hhmm(1_786_044_000, 0), hhmm(1_786_044_000 % 86_400, 0));
}

// ---- more of the same rules -----------------------------------------------------------------------

#[test]
fn a_time_is_shown_on_the_handsets_clock() {
    assert_eq!(hhmm(86_400, -3 * 3600), "21:00");
    assert_eq!(hhmm(86_400 + 3600, 5 * 3600 + 1800), "06:30");
}

#[test]
fn a_page_becomes_rows_with_their_names_and_hashes() {
    let store = store_from_dialogs(&dialog_page(&[4, 5]), 0, 0);
    assert_eq!(store.chats.len(), 2);
    assert_eq!(store.chats[1].name, "Contato 5");
    assert_eq!(store.chats[1].peer, Some(PeerRef { kind: proto::Kind::User, id: 5, access_hash: 35 }));
    assert_eq!(store.chats[1].time, "22:13");
    assert_eq!(store.chats[1].preview(), "oi 5");
    assert_eq!(store.dialog_offset_date, 1_700_000_001);
    assert_eq!(store.dialog_offset_id, 1001);
}

#[test]
fn a_fresh_message_replaces_only_the_media_of_its_own() {
    let mut c = with_previews(3);
    let p = proto::Peer { kind: proto::Kind::User, id: 7 };
    let mut fresh = proto_message(2, p, 0, "outra".to_string());
    fresh.media = Some(proto::Media::Photo {
        id: 2,
        access_hash: 77,
        file_reference: vec![9, 9],
        dc_id: 4,
        sizes: vec![size_of("m", 320, 240, false)],
    });
    assert!(refresh_media(&mut c, 2, &fresh));
    match c.messages[1].media.as_ref().unwrap() {
        Media::Photo { access_hash, file_reference, dc_id, .. } => {
            assert_eq!(*access_hash, 77);
            assert_eq!(file_reference, &vec![9, 9]);
            assert_eq!(*dc_id, 4);
        }
        _ => panic!("a photo stays a photo"),
    }
    assert_eq!(c.messages[1].text, "m2", "the text is the one that was there");
    assert!(!refresh_media(&mut c, 44, &fresh), "no such message");
}

#[test]
fn a_documents_kind_is_read_from_what_it_carries() {
    let doc = |filename: Option<&str>, duration: Option<i32>, is_voice: bool| {
        media_from_proto(&proto::Media::Document {
            id: 3,
            access_hash: 4,
            file_reference: vec![1],
            dc_id: 2,
            filename: filename.map(|s| s.to_string()),
            size: 500,
            duration,
            is_voice,
            waveform: None,
        })
    };
    assert_eq!(doc(None, Some(7), true).kind(), Some(MediaKind::Voice));
    assert_eq!(doc(Some("a.mp3"), Some(7), false).kind(), Some(MediaKind::Audio));
    assert_eq!(doc(Some("a.pdf"), None, false).kind(), Some(MediaKind::File));
    assert_eq!(media_from_proto(&proto::Media::Unsupported).kind(), None);
}

#[test]
fn only_a_complete_inline_picture_is_a_preview() {
    let mut stripped = size_of("i", 40, 30, false);
    stripped.inline = Some(vec![1, 2, 3]);
    assert_eq!(inline_preview(&vec![size_of("m", 320, 240, false)]), None);
    let mut whole = size_of("s", 90, 67, false);
    whole.inline = Some(vec![0xFF, 0xD8]);
    whole.complete = true;
    assert_eq!(inline_preview(&vec![stripped, whole]), Some(vec![0xFF, 0xD8]));
}

#[test]
fn a_slot_is_where_a_preview_goes_and_only_pictures_have_one() {
    let mut p = photo(1);
    *p.preview_slot().unwrap() = Some(vec![5]);
    assert_eq!(p.preview(), Some(&[5u8][..]));
    assert!(Media::Unknown.preview_slot().is_none());
    assert_eq!(photo(1).dc_id(), 2);
    assert_eq!(Media::Unknown.dc_id(), 0);
}

#[test]
fn every_delivery_has_its_own_mark() {
    assert_eq!(Delivery::Read.glyph(), "✓✓");
    assert_eq!(Delivery::Sent.glyph(), "✓");
    assert_ne!(Delivery::Pending.glyph(), Delivery::Failed.glyph());
}

#[test]
fn initials_are_upper_case_in_any_script() {
    let mut c = Chat::default();
    c.name = "élodie ßtern".to_string();
    assert_eq!(c.initials(), "ÉSS");
}

#[test]
fn a_page_that_lists_a_message_twice_brings_it_once() {
    let p = proto::Peer { kind: proto::Kind::User, id: 7 };
    let m = || proto_message(5, p, 0, "m5".to_string());
    let mut c = Chat::default();
    let twice = proto::Dialogs { messages: vec![m(), m()], ..no_page() };
    assert_eq!(merge_history(&mut c, &twice, peer(), 0), 0);
    assert_eq!(c.messages.len(), 1);
    assert_eq!(c.messages[0].id, 5);
}

#[test]
fn a_message_listed_again_further_down_is_brought_once_too() {
    let p = proto::Peer { kind: proto::Kind::User, id: 7 };
    let m = |id| proto_message(id, p, 0, format!("m{id}"));
    let mut c = filled(3);
    let page = proto::Dialogs { messages: vec![m(6), m(5), m(6), m(4), m(5)], ..no_page() };
    merge_history(&mut c, &page, peer(), 0);
    let ids: Vec<i32> = c.messages.iter().map(|m| m.id).collect();
    assert_eq!(ids, vec![1, 2, 3, 4, 5, 6]);
}

#[test]
fn the_same_history_twice_adds_nothing() {
    let mut c = filled(3);
    let newer = page(peer(), 9, 2);
    merge_history(&mut c, &newer, peer(), 0);
    let before: Vec<(i32, String)> = c.messages.iter().map(|m| (m.id, m.text.clone())).collect();
    let (oldest, complete) = (c.oldest, c.complete);
    assert_eq!(before.len(), 9);
    assert_eq!(merge_history(&mut c, &newer, peer(), 0), 0);
    let after: Vec<(i32, String)> = c.messages.iter().map(|m| (m.id, m.text.clone())).collect();
    assert_eq!(after, before);
    assert_eq!((c.oldest, c.complete), (oldest, complete));
}

#[test]
fn a_first_page_is_a_page_of_an_empty_list() {
    let page = dialog_page(&[3, 1, 2]);
    let first = store_from_dialogs(&page, 0, 3600);
    let mut further = Store::default();
    assert_eq!(merge_dialogs(&mut further, &page, 0, 3600), 3);
    let rows = |s: &Store| -> Vec<(String, Option<i64>, String)> {
        s.chats
            .iter()
            .map(|c| (c.name.clone(), c.peer.map(|p| p.access_hash), c.time.clone()))
            .collect()
    };
    assert_eq!(rows(&first), rows(&further));
    assert_eq!(first.chats[0].name, "Contato 3");
    assert_eq!(first.dialog_offset_id, further.dialog_offset_id);
    assert_eq!(first.dialog_offset_date, further.dialog_offset_date);
    assert_eq!(first.dialog_offset_peer, further.dialog_offset_peer);
}
