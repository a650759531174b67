//! The session and the cache, on a disk of names and bytes.

use telegram::cache_files::{list_name, tail_name, tail_to_load, wipe_goes_on, FileWrite, WIPE_ROUNDS};
use telegram::model::{Chat, Delivery, Media, Message, PeerRef, Store};
use telegram::proto;
use telegram::session_store;
use telegram::session_store::{decode, encode, invalidating, load, save, AuthKey, Invalidate, Stored, LEN};
use telegram::store_cache;
use telegram::store_cache::{
    decode_list, decode_tail, delivery_of, delivery_tag, encode_list, encode_tail, is_cache_name,
    load_list, load_tail, put_media, read_media, save_list, save_tail, Reader, DISK_TAIL, VERSION,
};

/// A private directory.
struct MemFs {
    files: Vec<(String, Vec<u8>)>,
}

impl MemFs {
    fn new() -> MemFs {
        MemFs { files: Vec::new() }
    }

    fn write(&mut self, f: FileWrite) {
        self.delete(&f.name);
        self.files.push((f.name, f.bytes));
    }

    fn read(&self, name: &str) -> Option<&[u8]> {
        self.files.iter().find(|f| f.0 == name).map(|f| &f.1[..])
    }

    fn delete(&mut self, name: &str) {
        self.files.retain(|f| f.0 != name);
    }

    /// The names, as a directory listing gives them.
    fn list(&self) -> Vec<u16> {
        let mut out = Vec::new();
        for (i, f) in self.files.iter().enumerate() {
            if i > 0 {
                out.push(0);
            }
            out.extend(f.0.encode_utf16());
        }
        out
    }

    fn wipe_cache(&mut self) {
        let mut rounds = 0;
        loop {
            let gone = store_cache::clear(&self.list(), self.files.len());
            for name in &gone {
                self.delete(name);
            }
            rounds += 1;
            if !wipe_goes_on(rounds, gone.len()) {
                return;
            }
        }
    }
}

fn a_key() -> AuthKey {
    let mut k = [0u8; 256];
    for (i, b) in k.iter_mut().enumerate() {
        *b = (i as u8).wrapping_mul(37).wrapping_add(11);
    }
    AuthKey { key: k, id: 0x0bad_c0de_dead_beef, salt: [3; 8], server_time: 0 }
}

fn a_session() -> Stored {
    Stored { dc: 4, auth: a_key(), salt: [3; 8], time_offset: -17, iap: 42 }
}

// ---- the session ----------------------------------------------------------------------------------

#[test]
fn a_session_round_trips_through_the_filesystem() {
    let mut fs = MemFs::new();
    assert!(load(fs.read("session.bin")).is_none(), "a fresh device has no session");

    fs.write(save(&a_session()));
    let back = load(fs.read("session.bin")).expect("the session did not come back");
    assert!(back == a_session());
}

#[test]
fn the_record_is_the_width_the_constant_says() {
    assert_eq!(encode(&a_session()).len(), LEN);
}

#[test]
fn the_data_centre_survives() {
    let mut fs = MemFs::new();
    let mut s = a_session();
    s.dc = 5;
    fs.write(save(&s));
    assert_eq!(load(fs.read("session.bin")).unwrap().dc, 5);
}

#[test]
fn a_truncated_or_foreign_record_is_refused() {
    let good = encode(&a_session());
    assert!(decode(&good[..good.len() - 1]).is_none(), "short");
    assert!(decode(&[]).is_none(), "empty");
    let mut wrong = good.clone();
    wrong[0] ^= 0xff;
    assert!(decode(&wrong).is_none(), "wrong magic");
}

#[test]
fn an_all_zero_key_is_not_a_key() {
    let mut s = a_session();
    s.auth.key = [0u8; 256];
    assert!(decode(&encode(&s)).is_none());
}

#[test]
fn clearing_wipes_before_it_unlinks() {
    let mut fs = MemFs::new();
    fs.write(save(&a_session()));
    let key_byte = a_session().auth.key[0];
    assert!(
        fs.files.iter().any(|f| f.1.len() == LEN && f.1[17] == key_byte),
        "the key was not written"
    );

    fs.write(session_store::clear(Invalidate::LoggedOut));
    assert!(
        !fs.files.iter().any(|f| f.1.len() == LEN && f.1[17] == key_byte),
        "the key survived the wipe"
    );
    assert!(load(fs.read("session.bin")).is_none(), "even if the delete fails");
    fs.delete("session.bin");
    assert!(load(fs.read("session.bin")).is_none());
}

#[test]
fn the_errors_that_kill_a_session_are_recognised() {
    assert_eq!(invalidating("AUTH_KEY_UNREGISTERED"), Some(Invalidate::Unregistered));
    assert_eq!(invalidating("SESSION_REVOKED"), Some(Invalidate::Revoked));
    assert_eq!(invalidating("USER_DEACTIVATED_BAN"), Some(Invalidate::Revoked));
    assert_eq!(invalidating("AUTH_KEY_INVALID_SOMETHING"), Some(Invalidate::Unregistered));
    assert_eq!(invalidating("FLOOD_WAIT_42"), None);
    assert_eq!(invalidating("PHONE_CODE_INVALID"), None);
    assert_eq!(invalidating(""), None);
}

#[test]
fn saving_twice_replaces_rather_than_appends() {
    let mut fs = MemFs::new();
    fs.write(save(&a_session()));
    let mut second = a_session();
    second.dc = 1;
    fs.write(save(&second));
    assert_eq!(load(fs.read("session.bin")).unwrap().dc, 1);
}

#[test]
fn a_record_lies_where_it_should() {
    let b = encode(&a_session());
    assert_eq!(&b[..4], &[0x74, 0x67, 0x53, 0x33]);
    assert_eq!(b[4], 4);
    assert_eq!(&b[5..13], &(-17i64).to_be_bytes());
    assert_eq!(&b[13..17], &[0, 0, 0, 42]);
    assert_eq!(&b[273..281], &0x0bad_c0de_dead_beefu64.to_be_bytes());
    assert_eq!(&b[281..], &[3; 8]);
}

// ---- the cache ------------------------------------------------------------------------------------

fn peer(id: i64) -> PeerRef {
    PeerRef { kind: proto::Kind::User, id, access_hash: 42 }
}

fn msg(id: i32, text: &str, media: Option<Media>) -> Message {
    Message {
        id,
        text: text.to_string(),
        outgoing: false,
        time: "10:00".to_string(),
        state: Delivery::Read,
        media,
    }
}

fn chat(id: i64, name: &str, n: usize) -> Chat {
    Chat {
        peer: Some(peer(id)),
        oldest: 1,
        name: name.to_string(),
        time: "10:00".to_string(),
        unread: 3,
        last_outgoing: true,
        messages: (1..=n as i32).map(|i| msg(i, "oi", None)).collect(),
        ..Default::default()
    }
}

fn store_of(chats: Vec<Chat>) -> Store {
    Store { chats, ..Default::default() }
}

#[test]
fn a_chat_list_survives_a_round_trip() {
    let store = store_of(vec![chat(1, "Ana Paula", 3), chat(-2, "Grupo", 1)]);
    let back = decode_list(&encode_list(&store)).expect("decodes");
    assert_eq!(back.len(), 2);
    assert_eq!(back[0].name, "Ana Paula");
    assert_eq!(back[0].peer, Some(peer(1)));
    assert_eq!(back[0].unread, 3);
    assert!(back[0].last_outgoing);
    assert_eq!(back[0].messages.len(), 1, "the list stores only the previewed message");
    assert_eq!(back[0].messages[0].id, 3, "and it is the newest one");
    assert_eq!(back[1].peer, Some(peer(-2)));
}

#[test]
fn a_restored_chat_is_never_marked_complete() {
    let back = decode_list(&encode_list(&store_of(vec![chat(1, "Ana", 3)]))).unwrap();
    assert!(!back[0].complete);
    assert!(!back[0].windowed);
    assert!(!back[0].loading);
}

#[test]
fn a_name_with_accents_and_emoji_comes_back_unchanged() {
    let back = decode_list(&encode_list(&store_of(vec![chat(1, "Márcia 👍 Ção", 1)]))).unwrap();
    assert_eq!(back[0].name, "Márcia 👍 Ção");
}

#[test]
fn every_media_arm_round_trips_without_its_preview_bytes() {
    let media = vec![
        Media::Photo {
            id: 7,
            access_hash: 8,
            file_reference: vec![1, 2, 3],
            dc_id: 4,
            thumb_size: "m".to_string(),
            size: 900,
            preview: Some(vec![0xFF, 0xD8, 0xAA]),
        },
        Media::Voice {
            id: 9,
            access_hash: 10,
            file_reference: Vec::new(),
            dc_id: 2,
            duration: 7,
            waveform: Some(vec![5, 6]),
            size: 100,
        },
        Media::Audio {
            id: 11,
            access_hash: 12,
            file_reference: vec![9],
            dc_id: 1,
            filename: "song.mp3".to_string(),
            duration: 200,
            size: 3000,
        },
        Media::File {
            id: 13,
            access_hash: 14,
            file_reference: Vec::new(),
            dc_id: 5,
            filename: "notas.txt".to_string(),
            size: 12,
        },
        Media::Sticker {
            id: 15,
            access_hash: 16,
            file_reference: Vec::new(),
            dc_id: 2,
            alt: "😀".to_string(),
            preview: Some(vec![0xFF, 0xD8]),
        },
        Media::Unknown,
    ];
    let mut c = chat(1, "x", 0);
    for (i, m) in media.iter().enumerate() {
        c.messages.push(msg(i as i32 + 1, "", Some(m.clone())));
    }
    let (back, _) = decode_tail(&encode_tail(&c)).expect("decodes");
    assert_eq!(back.len(), media.len());
    for (got, want) in back.iter().zip(media.iter()) {
        let got = got.media.as_ref().unwrap();
        assert_eq!(got.file_id(), want.file_id());
        assert_eq!(got.dc_id(), want.dc_id());
        assert_eq!(got.kind(), want.kind(), "the arm itself, not just its numbers");
        assert!(got.preview().is_none());
    }
    assert_eq!(
        back[2].media.as_ref().map(|m| m.file_id()),
        Some(11),
        "and they did not shuffle"
    );
}

#[test]
fn only_the_newest_messages_reach_the_disk() {
    let c = chat(1, "x", DISK_TAIL + 30);
    let (back, _) = decode_tail(&encode_tail(&c)).unwrap();
    assert_eq!(back.len(), DISK_TAIL);
    assert_eq!(back[0].id, 31, "the tail, not the head");
    assert_eq!(back[DISK_TAIL - 1].id, (DISK_TAIL + 30) as i32);
}

#[test]
fn a_pending_message_comes_back_as_failed() {
    let mut c = chat(1, "x", 0);
    c.messages.push(Message { state: Delivery::Pending, ..msg(1, "oi", None) });
    let (back, _) = decode_tail(&encode_tail(&c)).unwrap();
    assert_eq!(back[0].state, Delivery::Failed);
}

#[test]
fn a_truncated_file_is_a_miss_rather_than_half_a_chat_list() {
    let full = encode_list(&store_of(vec![chat(1, "Ana", 2), chat(2, "Bia", 2)]));
    for cut in 1..full.len() {
        assert!(
            decode_list(&full[..cut]).is_none(),
            "a file cut at {cut} must not decode into a partial list"
        );
    }
}

#[test]
fn a_foreign_or_future_file_is_refused() {
    let mut bytes = encode_list(&store_of(vec![chat(1, "Ana", 1)]));
    assert!(decode_list(&bytes).is_some());

    let mut wrong_magic = bytes.clone();
    wrong_magic[0] ^= 0xFF;
    assert!(decode_list(&wrong_magic).is_none());

    bytes[4] = VERSION + 1;
    assert!(decode_list(&bytes).is_none(), "a version this build does not know is a miss");

    assert!(decode_list(&[]).is_none());
    assert!(decode_list(&[0, 0, 0]).is_none());
}

#[test]
fn a_lying_length_prefix_cannot_read_past_the_end() {
    let store = store_of(vec![chat(1, "Ana", 1)]);
    let mut bytes = encode_list(&store);
    let at = 4 + 1 + 4 + 17;
    bytes[at..at + 4].copy_from_slice(&u32::MAX.to_be_bytes());
    assert!(decode_list(&bytes).is_none());

    let mut huge_count = encode_list(&store);
    huge_count[5..9].copy_from_slice(&u32::MAX.to_be_bytes());
    assert!(decode_list(&huge_count).is_none(), "and a count cannot reserve a gigabyte");
}

#[test]
fn invalid_utf8_in_a_name_fails_the_whole_decode() {
    let mut bytes = encode_list(&store_of(vec![chat(1, "Ana", 1)]));
    let at = 4 + 1 + 4 + 17 + 4; // first byte of the name
    bytes[at] = 0xFF;
    assert!(decode_list(&bytes).is_none());
}

fn saved_list(fs: &mut MemFs, store: &Store) {
    fs.write(save_list(store));
}

fn saved_tail(fs: &mut MemFs, c: &Chat) {
    if let Some(f) = save_tail(c) {
        fs.write(f);
    }
}

fn loaded_tail(fs: &MemFs, c: &mut Chat) -> bool {
    match tail_to_load(c) {
        Some(name) => load_tail(c, fs.read(&name)),
        None => false,
    }
}

#[test]
fn a_saved_list_is_the_one_that_loads() {
    let mut fs = MemFs::new();
    assert!(load_list(fs.read(list_name())).is_none(), "nothing cached yet");
    saved_list(&mut fs, &store_of(vec![chat(1, "Ana", 2)]));
    let back = load_list(fs.read(list_name())).expect("loads");
    assert_eq!(back.len(), 1);
    assert_eq!(back[0].name, "Ana");
}

#[test]
fn a_saved_tail_refills_an_empty_conversation() {
    let mut fs = MemFs::new();
    saved_tail(&mut fs, &chat(1, "Ana", 5));

    let mut restored = Chat { peer: Some(peer(1)), ..Default::default() };
    assert!(loaded_tail(&fs, &mut restored));
    assert_eq!(restored.messages.len(), 5);
    assert_eq!(restored.oldest, 1);
}

#[test]
fn a_tail_never_overwrites_messages_already_in_memory() {
    let mut fs = MemFs::new();
    saved_tail(&mut fs, &chat(1, "Ana", 5));

    let mut live = chat(1, "Ana", 3);
    live.messages[0].text = "fresco".to_string();
    assert!(!loaded_tail(&fs, &mut live));
    assert_eq!(live.messages.len(), 3);
    assert_eq!(live.messages[0].text, "fresco");
}

#[test]
fn a_user_and_a_chat_sharing_an_id_do_not_share_a_file() {
    let mut fs = MemFs::new();
    let mut as_user = chat(1234, "pessoa", 2);
    let mut as_chat = chat(1234, "grupo", 4);
    as_chat.peer = Some(PeerRef { kind: proto::Kind::Chat, id: 1234, access_hash: 0 });
    saved_tail(&mut fs, &as_user);
    saved_tail(&mut fs, &as_chat);

    as_user.messages.clear();
    as_chat.messages.clear();
    assert!(loaded_tail(&fs, &mut as_user));
    assert!(loaded_tail(&fs, &mut as_chat));
    assert_eq!(as_user.messages.len(), 2);
    assert_eq!(as_chat.messages.len(), 4);
}

#[test]
fn logging_out_leaves_nothing_of_the_previous_account() {
    let mut fs = MemFs::new();
    let chats = vec![chat(1, "Ana", 2), chat(2, "Bia", 2)];
    saved_list(&mut fs, &store_of(chats.clone()));
    for c in &chats {
        saved_tail(&mut fs, c);
    }
    assert!(load_list(fs.read(list_name())).is_some());

    fs.wipe_cache();
    assert!(load_list(fs.read(list_name())).is_none());
    for c in &chats {
        let mut empty = Chat { peer: c.peer, ..Default::default() };
        assert!(!loaded_tail(&fs, &mut empty), "no conversation left behind");
    }
}

#[test]
fn a_wipe_leaves_the_files_that_belong_to_other_code() {
    let mut fs = MemFs::new();
    let chats = vec![chat(1, "Ana", 2)];
    saved_list(&mut fs, &store_of(chats.clone()));
    saved_tail(&mut fs, &chats[0]);
    for other in ["session.bin", "iap.bin"] {
        fs.write(FileWrite { name: other.to_string(), bytes: vec![1, 2, 3] });
    }

    fs.wipe_cache();

    for other in ["session.bin", "iap.bin"] {
        assert!(fs.read(other).is_some(), "{other} is not this module's to delete");
    }
    assert!(load_list(fs.read(list_name())).is_none(), "and ours did go");
}

#[test]
fn a_wipe_also_takes_a_temporary_left_by_an_interrupted_write() {
    let mut fs = MemFs::new();
    fs.write(FileWrite { name: "chats.bin.tmp".to_string(), bytes: vec![1, 2, 3] });

    fs.wipe_cache();
    assert!(fs.read("chats.bin.tmp").is_none());
}

#[test]
fn the_names_of_the_cache_and_no_others() {
    assert_eq!(tail_name(peer(-2)), "c1fffffffffffffffe.bin");
    assert_eq!(list_name(), "chats.bin");
    assert!(is_cache_name("chats.bin"));
    assert!(is_cache_name("c1fffffffffffffffe.bin"));
    assert!(is_cache_name("c30000000000000001.bin.tmp"));
    assert!(!is_cache_name("session.bin"));
    assert!(!is_cache_name("c1.bin"));
    assert!(!is_cache_name(""));
}

#[test]
fn a_wipe_ends_when_a_round_removes_nothing() {
    assert!(wipe_goes_on(1, 3));
    assert!(!wipe_goes_on(1, 0));
    assert!(!wipe_goes_on(WIPE_ROUNDS, 3));
}

#[test]
fn a_chat_without_a_server_has_no_file() {
    let mut c = chat(1, "x", 2);
    c.peer = None;
    assert!(save_tail(&c).is_none());
    c.messages.clear();
    assert!(tail_to_load(&c).is_none());
}

#[test]
fn a_read_past_the_end_leaves_the_cursor_where_it_was() {
    let bytes = [1u8, 2, 3, 4];
    let mut r = Reader::new(&bytes);
    assert_eq!(r.take(3), Some(&bytes[..3]));
    assert_eq!(r.take(2), None);
    assert_eq!(r.take(1), Some(&bytes[3..]), "the byte before the end is still there");
    assert_eq!(r.take(0), Some(&bytes[4..]));
}

#[test]
fn an_attachment_survives_a_round_trip() {
    let file = Media::File {
        id: 13,
        access_hash: 14,
        file_reference: vec![1, 2],
        dc_id: 5,
        filename: "notas.txt".to_string(),
        size: 12,
    };
    let mut bytes = Vec::new();
    put_media(&mut bytes, &Some(file.clone()));
    put_media(&mut bytes, &None);
    let mut r = Reader::new(&bytes);
    let back = read_media(&mut r).unwrap().unwrap();
    assert_eq!((back.file_id(), back.dc_id(), back.kind()), (13, 5, file.kind()));
    assert!(matches!(back, Media::File { size: 12, ref filename, .. } if filename == "notas.txt"));
    assert!(read_media(&mut r).unwrap().is_none(), "and nothing comes back as nothing");
    assert_eq!(r.take(1), None, "to the last byte");
}

#[test]
fn an_unknown_attachment_is_refused() {
    for tag in 7..=u8::MAX {
        let bytes = [tag; 64];
        assert!(read_media(&mut Reader::new(&bytes)).is_none(), "{tag}");
    }
}

#[test]
fn a_delivery_comes_back_as_itself_unless_it_was_waiting() {
    for d in [Delivery::Sent, Delivery::Read, Delivery::Failed] {
        assert_eq!(delivery_of(delivery_tag(d)), Some(d));
    }
    assert_eq!(delivery_of(delivery_tag(Delivery::Pending)), Some(Delivery::Failed));
    assert_eq!(delivery_of(0), None);
    assert_eq!(delivery_of(5), None);
}

#[test]
fn detail_behind_an_error_changes_nothing() {
    for e in ["AUTH_KEY_INVALID", "SESSION_REVOKED", "USER_DEACTIVATED", "FLOOD_WAIT"] {
        assert_eq!(invalidating(&format!("{e}_BAN 401")), invalidating(e), "{e}");
    }
    assert_eq!(invalidating("SESSION_EXPIRED: 7"), Some(Invalidate::Revoked));
}
