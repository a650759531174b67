//! The chat list and the tail of each conversation, kept on disk between launches.
//!
//! A second launch draws the list it drew last time, so the network is an update rather than a
//! prerequisite. The format is a magic number, a version, then length-prefixed fields, and
//! decoding is all-or-nothing: a half-loaded chat list looks like data, and nobody can tell which
//! half is missing. Inline previews are not stored here; the media cache has them.

pub use crate::cache_files::{clear, is_cache_name, load_list, load_tail, save_list, save_tail};
use crate::bytes;
use crate::bytes::{get_be32, get_be64, push_be32, push_be64};
use crate::model;
use crate::model::{
    copy_bytes, Chat, ChatView, Delivery, Media, MediaView, Message, MessageView, PeerRef, Store,
};
use crate::proto;
use crate::proto::Kind;
use crate::text::utf8_text;
use vstd::prelude::*;
use vstd::string::*;
use vstd::utf8;

verus! {

broadcast use {bytes::be32_len, bytes::be64_len};

/// Says the bytes were meant for this reader.
pub const MAGIC: u32 = 0x7467_4331;

/// Changed when a field is added or reordered. An unknown version is a miss.
pub const VERSION: u8 = 1;

/// How many of a conversation's newest messages are written to disk.
pub const DISK_TAIL: usize = 20;

/// A ceiling on any length prefix, so a corrupt file cannot ask for a huge allocation.
pub const MAX_FIELD: usize = 8192;

/// A ceiling on the counts, for the same reason.
pub const MAX_ITEMS: usize = 4096;

// ---- what is written ------------------------------------------------------------------------------

/// A length as its prefix carries it.
pub open spec fn len32(n: nat) -> u32 {
    (n % 0x1_0000_0000) as u32
}

/// Bytes behind their length.
pub open spec fn enc_bytes(b: Seq<u8>) -> Seq<u8> {
    bytes::be32(len32(b.len())) + b
}

/// A text behind its length in bytes.
pub open spec fn enc_str(s: Seq<char>) -> Seq<u8> {
    enc_bytes(utf8::encode_utf8(s))
}

/// A signed number by its bits.
pub open spec fn enc_i32(n: i32) -> Seq<u8> {
    bytes::be32(n as u32)
}

/// A signed number by its bits.
pub open spec fn enc_i64(n: i64) -> Seq<u8> {
    bytes::be64(n as u64)
}

/// One byte, for a flag.
pub open spec fn enc_bool(b: bool) -> Seq<u8> {
    seq![if b { 1u8 } else { 0u8 }]
}

/// The tag of a kind of peer. Numbers of their own, so that reordering the variants cannot change
/// what a stored file means.
pub open spec fn tag_of_kind(k: Kind) -> u8 {
    match k {
        Kind::User => 1,
        Kind::Chat => 2,
        Kind::Channel => 3,
    }
}

/// The kind of peer a tag stands for.
pub open spec fn kind_for_tag(tag: u8) -> Option<Kind> {
    if tag == 1 {
        Some(Kind::User)
    } else if tag == 2 {
        Some(Kind::Chat)
    } else if tag == 3 {
        Some(Kind::Channel)
    } else {
        None
    }
}

/// The tag of a delivery state.
pub open spec fn tag_of_delivery(d: Delivery) -> u8 {
    match d {
        Delivery::Pending => 1,
        Delivery::Sent => 2,
        Delivery::Read => 3,
        Delivery::Failed => 4,
    }
}

/// The state a tag is restored as. Nothing retries a message across launches, so one that was still
/// pending when the application closed has failed.
pub open spec fn delivery_for_tag(tag: u8) -> Option<Delivery> {
    if tag == 1 || tag == 4 {
        Some(Delivery::Failed)
    } else if tag == 2 {
        Some(Delivery::Sent)
    } else if tag == 3 {
        Some(Delivery::Read)
    } else {
        None
    }
}

/// A peer: its tag, its id and its hash, all zero where there is none.
#[verifier::opaque]
pub open spec fn enc_peer(p: Option<PeerRef>) -> Seq<u8> {
    match p {
        Some(p) => seq![tag_of_kind(p.kind)] + enc_i64(p.id) + enc_i64(p.access_hash),
        None => seq![0u8] + enc_i64(0) + enc_i64(0),
    }
}

/// What every attachment with a file begins with.
#[verifier::opaque]
pub open spec fn enc_file(
    tag: u8,
    id: i64,
    access_hash: i64,
    file_reference: Seq<u8>,
    dc_id: i32,
) -> Seq<u8> {
    seq![tag] + enc_i64(id) + enc_i64(access_hash) + enc_bytes(file_reference) + enc_i32(dc_id)
}

/// The bytes of an absent or present byte string: absent and empty are written alike.
pub open spec fn or_empty(b: Option<Seq<u8>>) -> Seq<u8> {
    match b {
        Some(b) => b,
        None => seq![],
    }
}

/// An attachment, without its preview.
#[verifier::opaque]
pub open spec fn enc_media(m: Option<MediaView>) -> Seq<u8> {
    match m {
        None => seq![0u8],
        Some(MediaView::Photo { id, access_hash, file_reference, dc_id, thumb_size, size, .. }) =>
            enc_file(1, id, access_hash, file_reference, dc_id) + enc_str(thumb_size) + enc_i64(
            size,
        ),
        Some(
            MediaView::Voice { id, access_hash, file_reference, dc_id, duration, waveform, size },
        ) => enc_file(2, id, access_hash, file_reference, dc_id) + enc_i32(duration) + enc_bytes(
            or_empty(waveform),
        ) + enc_i64(size),
        Some(
            MediaView::Audio { id, access_hash, file_reference, dc_id, filename, duration, size },
        ) => enc_file(3, id, access_hash, file_reference, dc_id) + enc_str(filename) + enc_i32(
            duration,
        ) + enc_i64(size),
        Some(MediaView::File { id, access_hash, file_reference, dc_id, filename, size }) =>
            enc_file(4, id, access_hash, file_reference, dc_id) + enc_str(filename) + enc_i64(size),
        Some(MediaView::Sticker { id, access_hash, file_reference, dc_id, alt, .. }) => enc_file(
            5,
            id,
            access_hash,
            file_reference,
            dc_id,
        ) + enc_str(alt),
        Some(MediaView::Unknown) => seq![6u8],
    }
}

/// A message.
#[verifier::opaque]
pub open spec fn enc_message(m: MessageView) -> Seq<u8> {
    enc_i32(m.id) + enc_str(m.text) + enc_bool(m.outgoing) + enc_str(m.time) + seq![
        tag_of_delivery(m.state),
    ] + enc_media(m.media)
}

/// The previewed message of a chat, if it has one.
pub open spec fn enc_last(s: Seq<MessageView>) -> Seq<u8> {
    if s.len() == 0 {
        seq![0u8]
    } else {
        seq![1u8] + enc_message(s.last())
    }
}

/// One row of the list.
#[verifier::opaque]
pub open spec fn enc_row(c: ChatView) -> Seq<u8> {
    enc_peer(c.peer) + enc_str(c.name) + enc_str(c.time) + bytes::be32(c.unread) + enc_bool(
        c.last_outgoing,
    ) + enc_i32(c.oldest) + enc_last(c.messages)
}

/// Some rows, in order.
pub open spec fn enc_rows(s: Seq<ChatView>) -> Seq<u8>
    decreases s.len(),
{
    if s.len() == 0 {
        seq![]
    } else {
        enc_rows(s.drop_last()) + enc_row(s.last())
    }
}

/// Some messages, in order.
pub open spec fn enc_messages(s: Seq<MessageView>) -> Seq<u8>
    decreases s.len(),
{
    if s.len() == 0 {
        seq![]
    } else {
        enc_messages(s.drop_last()) + enc_message(s.last())
    }
}

/// What every file begins with.
pub open spec fn enc_header() -> Seq<u8> {
    bytes::be32(MAGIC) + seq![VERSION]
}

/// The rows a list file holds: as many as a reader accepts.
pub open spec fn stored_rows(s: Seq<ChatView>) -> Seq<ChatView> {
    if s.len() > MAX_ITEMS {
        s.take(MAX_ITEMS as int)
    } else {
        s
    }
}

/// The file of a chat list.
pub open spec fn enc_list(s: Seq<ChatView>) -> Seq<u8> {
    let rows = stored_rows(s);
    enc_header() + bytes::be32(rows.len() as u32) + enc_rows(rows)
}

/// The messages a conversation's file holds: the newest.
pub open spec fn stored_tail(s: Seq<MessageView>) -> Seq<MessageView> {
    if s.len() > DISK_TAIL {
        s.skip(s.len() - DISK_TAIL)
    } else {
        s
    }
}

/// The file of a conversation.
pub open spec fn enc_tail(c: ChatView) -> Seq<u8> {
    let tail = stored_tail(c.messages);
    enc_header() + enc_i32(c.oldest) + bytes::be32(tail.len() as u32) + enc_messages(tail)
}

// ---- writing --------------------------------------------------------------------------------------

fn put_u8(v: &mut Vec<u8>, n: u8)
    ensures
        final(v)@ == old(v)@ + seq![n],
{
    v.push(n);
    assert(v@ =~= old(v)@ + seq![n]);
}

fn put_u32(v: &mut Vec<u8>, n: u32)
    ensures
        final(v)@ == old(v)@ + bytes::be32(n),
{
    push_be32(v, n);
}

fn put_i32(v: &mut Vec<u8>, n: i32)
    ensures
        final(v)@ == old(v)@ + enc_i32(n),
{
    push_be32(v, n as u32);
}

fn put_i64(v: &mut Vec<u8>, n: i64)
    ensures
        final(v)@ == old(v)@ + enc_i64(n),
{
    push_be64(v, n as u64);
}

fn put_bool(v: &mut Vec<u8>, b: bool)
    ensures
        final(v)@ == old(v)@ + enc_bool(b),
{
    put_u8(v, if b { 1 } else { 0 });
}

fn put_bytes(v: &mut Vec<u8>, b: &[u8])
    ensures
        final(v)@ == old(v)@ + enc_bytes(b@),
{
    let ghost start = v@;
    let n: u64 = b.len() as u64;
    put_u32(v, (n % 0x1_0000_0000) as u32);
    v.extend_from_slice(b);
    assert(v@ =~= start + enc_bytes(b@));
}

fn put_str(v: &mut Vec<u8>, s: &str)
    ensures
        final(v)@ == old(v)@ + enc_str(s@),
{
    put_bytes(v, s.as_bytes());
}

fn kind_tag(k: Kind) -> (r: u8)
    ensures
        r == tag_of_kind(k),
{
    match k {
        Kind::User => 1,
        Kind::Chat => 2,
        Kind::Channel => 3,
    }
}

/// The number a delivery state is stored as.
pub fn delivery_tag(d: Delivery) -> (r: u8)
    ensures
        r == tag_of_delivery(d),
{
    match d {
        Delivery::Pending => 1,
        Delivery::Sent => 2,
        Delivery::Read => 3,
        Delivery::Failed => 4,
    }
}

fn put_peer(v: &mut Vec<u8>, p: Option<PeerRef>)
    ensures
        final(v)@ == old(v)@ + enc_peer(p),
{
    reveal(enc_peer);
    let ghost start = v@;
    match p {
        Some(p) => {
            put_u8(v, kind_tag(p.kind));
            put_i64(v, p.id);
            put_i64(v, p.access_hash);
        },
        None => {
            put_u8(v, 0);
            put_i64(v, 0);
            put_i64(v, 0);
        },
    }
    assert(v@ =~= start + enc_peer(p));
}

fn put_file(v: &mut Vec<u8>, tag: u8, id: i64, access_hash: i64, file_reference: &[u8], dc_id: i32)
    ensures
        final(v)@ == old(v)@ + enc_file(tag, id, access_hash, file_reference@, dc_id),
{
    reveal(enc_file);
    let ghost start = v@;
    put_u8(v, tag);
    put_i64(v, id);
    put_i64(v, access_hash);
    put_bytes(v, file_reference);
    put_i32(v, dc_id);
    assert(v@ =~= start + enc_file(tag, id, access_hash, file_reference@, dc_id));
}

/// Append an attachment, without its preview.
pub fn put_media(v: &mut Vec<u8>, m: &Option<Media>)
    ensures
        final(v)@ == old(v)@ + enc_media(model::media_opt(*m)),
{
    reveal(enc_media);
    let ghost start = v@;
    match m {
        None => put_u8(v, 0),
        Some(Media::Photo { id, access_hash, file_reference, dc_id, thumb_size, size, .. }) => {
            put_file(v, 1, *id, *access_hash, file_reference.as_slice(), *dc_id);
            put_str(v, thumb_size.as_str());
            put_i64(v, *size);
        },
        Some(
            Media::Voice { id, access_hash, file_reference, dc_id, duration, waveform, size },
        ) => {
            put_file(v, 2, *id, *access_hash, file_reference.as_slice(), *dc_id);
            put_i32(v, *duration);
            match waveform {
                Some(w) => put_bytes(v, w.as_slice()),
                None => put_bytes(v, Vec::new().as_slice()),
            }
            put_i64(v, *size);
        },
        Some(
            Media::Audio { id, access_hash, file_reference, dc_id, filename, duration, size },
        ) => {
            put_file(v, 3, *id, *access_hash, file_reference.as_slice(), *dc_id);
            put_str(v, filename.as_str());
            put_i32(v, *duration);
            put_i64(v, *size);
        },
        Some(Media::File { id, access_hash, file_reference, dc_id, filename, size }) => {
            put_file(v, 4, *id, *access_hash, file_reference.as_slice(), *dc_id);
            put_str(v, filename.as_str());
            put_i64(v, *size);
        },
        Some(Media::Sticker { id, access_hash, file_reference, dc_id, alt, .. }) => {
            put_file(v, 5, *id, *access_hash, file_reference.as_slice(), *dc_id);
            put_str(v, alt.as_str());
        },
        Some(Media::Unknown) => put_u8(v, 6),
    }
    assert(v@ =~= start + enc_media(model::media_opt(*m)));
}

fn put_message(v: &mut Vec<u8>, m: &Message)
    ensures
        final(v)@ == old(v)@ + enc_message(m@),
{
    reveal(enc_message);
    let ghost start = v@;
    put_i32(v, m.id);
    put_str(v, m.text.as_str());
    put_bool(v, m.outgoing);
    put_str(v, m.time.as_str());
    put_u8(v, delivery_tag(m.state));
    put_media(v, &m.media);
    assert(v@ =~= start + enc_message(m@));
}

fn put_row(v: &mut Vec<u8>, c: &Chat)
    ensures
        final(v)@ == old(v)@ + enc_row(c@),
{
    reveal(enc_row);
    let ghost start = v@;
    put_peer(v, c.peer);
    put_str(v, c.name.as_str());
    put_str(v, c.time.as_str());
    put_u32(v, c.unread);
    put_bool(v, c.last_outgoing);
    put_i32(v, c.oldest);
    if c.messages.len() == 0 {
        put_u8(v, 0);
    } else {
        let m = &c.messages[c.messages.len() - 1];
        assert(c@.messages.last() == m@);
        put_u8(v, 1);
        put_message(v, m);
    }
    assert(v@ =~= start + enc_row(c@));
}

/// Encode the list: one row per chat, with the single message each row previews.
pub fn encode_list(store: &Store) -> (r: Vec<u8>)
    ensures
        r@ == enc_list(store@.chats),
{
    let ghost rows = stored_rows(store@.chats);
    let mut v: Vec<u8> = Vec::new();
    put_u32(&mut v, MAGIC);
    put_u8(&mut v, VERSION);
    let n: usize = if store.chats.len() > MAX_ITEMS {
        MAX_ITEMS
    } else {
        store.chats.len()
    };
    put_u32(&mut v, n as u32);
    let ghost head = v@;
    assert(head =~= enc_header() + bytes::be32(rows.len() as u32));
    let mut i: usize = 0;
    assert(rows.take(0) =~= seq![]);
    while i < n
        invariant
            i <= n <= store.chats@.len(),
            n == rows.len(),
            rows == stored_rows(store@.chats),
            v@ =~= head + enc_rows(rows.take(i as int)),
        decreases n - i,
    {
        put_row(&mut v, &store.chats[i]);
        assert(rows[i as int] == store.chats@[i as int]@);
        assert(rows.take(i + 1).drop_last() =~= rows.take(i as int));
        i += 1;
    }
    assert(rows.take(rows.len() as int) =~= rows);
    v
}

/// Encode the newest [`DISK_TAIL`] messages of a chat.
pub fn encode_tail(chat: &Chat) -> (r: Vec<u8>)
    ensures
        r@ == enc_tail(chat@),
{
    let ghost tail = stored_tail(chat@.messages);
    let start: usize = chat.messages.len().saturating_sub(DISK_TAIL);
    let n: usize = chat.messages.len() - start;
    let mut v: Vec<u8> = Vec::new();
    put_u32(&mut v, MAGIC);
    put_u8(&mut v, VERSION);
    put_i32(&mut v, chat.oldest);
    put_u32(&mut v, n as u32);
    let ghost head = v@;
    assert(head =~= enc_header() + enc_i32(chat.oldest) + bytes::be32(tail.len() as u32));
    let mut i: usize = 0;
    assert(tail.take(0) =~= seq![]);
    while i < n
        invariant
            i <= n,
            n == tail.len(),
            start + n == chat.messages.len(),
            tail == stored_tail(chat@.messages),
            v@ =~= head + enc_messages(tail.take(i as int)),
        decreases n - i,
    {
        put_message(&mut v, &chat.messages[start + i]);
        assert(tail[i as int] == chat.messages@[start + i]@);
        assert(tail.take(i + 1).drop_last() =~= tail.take(i as int));
        i += 1;
    }
    assert(tail.take(tail.len() as int) =~= tail);
    v
}

// ---- what is read ---------------------------------------------------------------------------------

/// One byte at a place, and the place behind it.
pub open spec fn p_u8(b: Seq<u8>, at: int) -> Option<(u8, int)> {
    if at + 1 <= b.len() {
        Some((b[at], at + 1))
    } else {
        None
    }
}

/// An unsigned number at a place.
pub open spec fn p_u32(b: Seq<u8>, at: int) -> Option<(u32, int)> {
    if at + 4 <= b.len() {
        Some((bytes::of_be32(b, at), at + 4))
    } else {
        None
    }
}

/// A signed number at a place.
pub open spec fn p_i32(b: Seq<u8>, at: int) -> Option<(i32, int)> {
    match p_u32(b, at) {
        Some((n, e)) => Some((n as i32, e)),
        None => None,
    }
}

/// A signed number at a place.
pub open spec fn p_i64(b: Seq<u8>, at: int) -> Option<(i64, int)> {
    if at + 8 <= b.len() {
        Some((bytes::of_be64(b, at) as i64, at + 8))
    } else {
        None
    }
}

/// A flag at a place: anything but zero is true.
pub open spec fn p_bool(b: Seq<u8>, at: int) -> Option<(bool, int)> {
    match p_u8(b, at) {
        Some((n, e)) => Some((n != 0, e)),
        None => None,
    }
}

/// Bytes behind their length, which is refused above a limit.
pub open spec fn p_bytes(b: Seq<u8>, at: int, lim: nat) -> Option<(Seq<u8>, int)> {
    match p_u32(b, at) {
        Some((n, e)) => if n > lim || e + n > b.len() {
            None
        } else {
            Some((b.subrange(e, e + n), e + n))
        },
        None => None,
    }
}

/// A text behind its length, refused where it is not UTF-8.
pub open spec fn p_str(b: Seq<u8>, at: int, lim: nat) -> Option<(Seq<char>, int)> {
    match p_bytes(b, at, lim) {
        Some((s, e)) => if utf8::valid_utf8(s) {
            Some((utf8::decode_utf8(s), e))
        } else {
            None
        },
        None => None,
    }
}

/// A count, which is refused above [`MAX_ITEMS`].
pub open spec fn p_count(b: Seq<u8>, at: int) -> Option<(nat, int)> {
    match p_u32(b, at) {
        Some((n, e)) => if n > MAX_ITEMS {
            None
        } else {
            Some((n as nat, e))
        },
        None => None,
    }
}

/// A peer at a place.
#[verifier::opaque]
pub open spec fn p_peer(b: Seq<u8>, at: int) -> Option<(Option<PeerRef>, int)> {
    match p_u8(b, at) {
        None => None,
        Some((tag, e1)) => match p_i64(b, e1) {
            None => None,
            Some((id, e2)) => match p_i64(b, e2) {
                None => None,
                Some((access_hash, e3)) => if tag == 0 {
                    Some((None, e3))
                } else {
                    match kind_for_tag(tag) {
                        None => None,
                        Some(kind) => Some((Some(PeerRef { kind, id, access_hash }), e3)),
                    }
                },
            },
        },
    }
}

/// What every attachment with a file begins with, behind its tag.
#[verifier::opaque]
pub open spec fn p_file(b: Seq<u8>, at: int, lim: nat) -> Option<((i64, i64, Seq<u8>, i32), int)> {
    match p_i64(b, at) {
        None => None,
        Some((id, e1)) => match p_i64(b, e1) {
            None => None,
            Some((hash, e2)) => match p_bytes(b, e2, lim) {
                None => None,
                Some((reference, e3)) => match p_i32(b, e3) {
                    None => None,
                    Some((dc, e4)) => Some(((id, hash, reference, dc), e4)),
                },
            },
        },
    }
}

/// What follows the file of a photo.
pub open spec fn p_photo(
    f: (i64, i64, Seq<u8>, i32),
    b: Seq<u8>,
    at: int,
    lim: nat,
) -> Option<(Option<MediaView>, int)> {
    match p_str(b, at, lim) {
        None => None,
        Some((thumb_size, e1)) => match p_i64(b, e1) {
            None => None,
            Some((size, e2)) => Some(
                (
                    Some(
                        MediaView::Photo {
                            id: f.0,
                            access_hash: f.1,
                            file_reference: f.2,
                            dc_id: f.3,
                            thumb_size,
                            size,
                            preview: None,
                        },
                    ),
                    e2,
                ),
            ),
        },
    }
}

/// What follows the file of a voice note. No envelope and an empty one are the same.
pub open spec fn p_voice(
    f: (i64, i64, Seq<u8>, i32),
    b: Seq<u8>,
    at: int,
    lim: nat,
) -> Option<(Option<MediaView>, int)> {
    match p_i32(b, at) {
        None => None,
        Some((duration, e1)) => match p_bytes(b, e1, lim) {
            None => None,
            Some((wave, e2)) => match p_i64(b, e2) {
                None => None,
                Some((size, e3)) => Some(
                    (
                        Some(
                            MediaView::Voice {
                                id: f.0,
                                access_hash: f.1,
                                file_reference: f.2,
                                dc_id: f.3,
                                duration,
                                waveform: if wave.len() == 0 {
                                    None
                                } else {
                                    Some(wave)
                                },
                                size,
                            },
                        ),
                        e3,
                    ),
                ),
            },
        },
    }
}

/// What follows the file of a music track.
pub open spec fn p_audio(
    f: (i64, i64, Seq<u8>, i32),
    b: Seq<u8>,
    at: int,
    lim: nat,
) -> Option<(Option<MediaView>, int)> {
    match p_str(b, at, lim) {
        None => None,
        Some((filename, e1)) => match p_i32(b, e1) {
            None => None,
            Some((duration, e2)) => match p_i64(b, e2) {
                None => None,
                Some((size, e3)) => Some(
                    (
                        Some(
                            MediaView::Audio {
                                id: f.0,
                                access_hash: f.1,
                                file_reference: f.2,
                                dc_id: f.3,
                                filename,
                                duration,
                                size,
                            },
                        ),
                        e3,
                    ),
                ),
            },
        },
    }
}

/// What follows the file of a document.
pub open spec fn p_document(
    f: (i64, i64, Seq<u8>, i32),
    b: Seq<u8>,
    at: int,
    lim: nat,
) -> Option<(Option<MediaView>, int)> {
    match p_str(b, at, lim) {
        None => None,
        Some((filename, e1)) => match p_i64(b, e1) {
            None => None,
            Some((size, e2)) => Some(
                (
                    Some(
                        MediaView::File {
                            id: f.0,
                            access_hash: f.1,
                            file_reference: f.2,
                            dc_id: f.3,
                            filename,
                            size,
                        },
                    ),
                    e2,
                ),
            ),
        },
    }
}

/// What follows the file of a sticker.
pub open spec fn p_sticker(
    f: (i64, i64, Seq<u8>, i32),
    b: Seq<u8>,
    at: int,
    lim: nat,
) -> Option<(Option<MediaView>, int)> {
    match p_str(b, at, lim) {
        None => None,
        Some((alt, e1)) => Some(
            (
                Some(
                    MediaView::Sticker {
                        id: f.0,
                        access_hash: f.1,
                        file_reference: f.2,
                        dc_id: f.3,
                        alt,
                        preview: None,
                    },
                ),
                e1,
            ),
        ),
    }
}

/// An attachment at a place. Its preview is never there.
#[verifier::opaque]
pub open spec fn p_media(b: Seq<u8>, at: int, lim: nat) -> Option<(Option<MediaView>, int)> {
    match p_u8(b, at) {
        None => None,
        Some((tag, e1)) => if tag == 0 {
            Some((None, e1))
        } else if tag == 6 {
            Some((Some(MediaView::Unknown), e1))
        } else {
            match p_file(b, e1, lim) {
                None => None,
                Some((f, e2)) => if tag == 1 {
                    p_photo(f, b, e2, lim)
                } else if tag == 2 {
                    p_voice(f, b, e2, lim)
                } else if tag == 3 {
                    p_audio(f, b, e2, lim)
                } else if tag == 4 {
                    p_document(f, b, e2, lim)
                } else if tag == 5 {
                    p_sticker(f, b, e2, lim)
                } else {
                    None
                },
            }
        },
    }
}

/// A message at a place.
#[verifier::opaque]
pub open spec fn p_message(b: Seq<u8>, at: int, lim: nat) -> Option<(MessageView, int)> {
    match p_i32(b, at) {
        None => None,
        Some((id, e1)) => match p_str(b, e1, lim) {
            None => None,
            Some((text, e2)) => match p_bool(b, e2) {
                None => None,
                Some((outgoing, e3)) => match p_str(b, e3, lim) {
                    None => None,
                    Some((time, e4)) => match p_u8(b, e4) {
                        None => None,
                        Some((tag, e5)) => match delivery_for_tag(tag) {
                            None => None,
                            Some(state) => match p_media(b, e5, lim) {
                                None => None,
                                Some((media, e6)) => Some(
                                    (MessageView { id, text, outgoing, time, state, media }, e6),
                                ),
                            },
                        },
                    },
                },
            },
        },
    }
}

/// The previewed message of a row, if it has one.
pub open spec fn p_last(b: Seq<u8>, at: int, lim: nat) -> Option<(Seq<MessageView>, int)> {
    match p_u8(b, at) {
        None => None,
        Some((tag, e1)) => if tag == 0 {
            Some((seq![], e1))
        } else if tag == 1 {
            match p_message(b, e1, lim) {
                None => None,
                Some((m, e2)) => Some((seq![m], e2)),
            }
        } else {
            None
        },
    }
}

/// A row of the list at a place. What is on disk is a preview and not a conversation, so a restored
/// chat is never complete, full or loading.
#[verifier::opaque]
pub open spec fn p_row(b: Seq<u8>, at: int, lim: nat) -> Option<(ChatView, int)> {
    match p_peer(b, at) {
        None => None,
        Some((peer, e1)) => match p_str(b, e1, lim) {
            None => None,
            Some((name, e2)) => match p_str(b, e2, lim) {
                None => None,
                Some((time, e3)) => match p_u32(b, e3) {
                    None => None,
                    Some((unread, e4)) => match p_bool(b, e4) {
                        None => None,
                        Some((last_outgoing, e5)) => match p_i32(b, e5) {
                            None => None,
                            Some((oldest, e6)) => match p_last(b, e6, lim) {
                                None => None,
                                Some((messages, e7)) => Some(
                                    (
                                        ChatView {
                                            peer,
                                            oldest,
                                            complete: false,
                                            windowed: false,
                                            loading: false,
                                            name,
                                            time,
                                            unread,
                                            last_outgoing,
                                            messages,
                                        },
                                        e7,
                                    ),
                                ),
                            },
                        },
                    },
                },
            },
        },
    }
}

/// Some rows at a place, one behind the other.
pub open spec fn p_rows(b: Seq<u8>, at: int, n: nat, lim: nat) -> Option<(Seq<ChatView>, int)>
    decreases n,
{
    if n == 0 {
        Some((seq![], at))
    } else {
        match p_rows(b, at, (n - 1) as nat, lim) {
            None => None,
            Some((rows, e)) => match p_row(b, e, lim) {
                None => None,
                Some((c, f)) => Some((rows.push(c), f)),
            },
        }
    }
}

/// Some messages at a place, one behind the other.
pub open spec fn p_messages(
    b: Seq<u8>,
    at: int,
    n: nat,
    lim: nat,
) -> Option<(Seq<MessageView>, int)>
    decreases n,
{
    if n == 0 {
        Some((seq![], at))
    } else {
        match p_messages(b, at, (n - 1) as nat, lim) {
            None => None,
            Some((all, e)) => match p_message(b, e, lim) {
                None => None,
                Some((m, f)) => Some((all.push(m), f)),
            },
        }
    }
}

/// What every file begins with: the place behind it, where it is right.
pub open spec fn p_header(b: Seq<u8>) -> Option<int> {
    match p_u32(b, 0) {
        None => None,
        Some((magic, e1)) => if magic != MAGIC {
            None
        } else {
            match p_u8(b, e1) {
                None => None,
                Some((version, e2)) => if version != VERSION {
                    None
                } else {
                    Some(e2)
                },
            }
        },
    }
}

/// A whole list file and where its rows end.
pub open spec fn p_list(b: Seq<u8>, lim: nat) -> Option<(Seq<ChatView>, int)> {
    match p_header(b) {
        None => None,
        Some(e1) => match p_count(b, e1) {
            None => None,
            Some((n, e2)) => p_rows(b, e2, n, lim),
        },
    }
}

/// A whole conversation file and where its messages end.
pub open spec fn p_tail(b: Seq<u8>, lim: nat) -> Option<((Seq<MessageView>, i32), int)> {
    match p_header(b) {
        None => None,
        Some(e1) => match p_i32(b, e1) {
            None => None,
            Some((oldest, e2)) => match p_count(b, e2) {
                None => None,
                Some((n, e3)) => match p_messages(b, e3, n, lim) {
                    None => None,
                    Some((all, e4)) => Some(((all, oldest), e4)),
                },
            },
        },
    }
}

// ---- reading --------------------------------------------------------------------------------------

/// A cursor that only moves forward and refuses to read past the end.
///
/// Every accessor returns an `Option`, and one `None` anywhere aborts the whole decode.
pub struct Reader<'a> {
    b: &'a [u8],
    at: usize,
}

/// Whether a read went the way a parser says: the same answer, the cursor behind what was read.
pub open spec fn reads<T>(parsed: Option<(T, int)>, r: Option<T>, end: int) -> bool {
    match parsed {
        Some((v, e)) => r == Some(v) && end == e,
        None => r is None,
    }
}

impl<'a> Reader<'a> {
    /// The bytes that are read.
    pub closed spec fn all(self) -> Seq<u8> {
        self.b@
    }

    /// Where the next read starts.
    pub closed spec fn pos(self) -> int {
        self.at as int
    }

    /// Whether the cursor stands within the bytes.
    pub open spec fn within(self) -> bool {
        0 <= self.pos() <= self.all().len()
    }

    /// A cursor at the start of some bytes.
    pub fn new(b: &'a [u8]) -> (r: Self)
        ensures
            r.all() == b@,
            r.pos() == 0,
            r.within(),
    {
        Reader { b, at: 0 }
    }

    /// The next bytes. Where there are not as many, nothing is read and the cursor stays.
    pub fn take(&mut self, n: usize) -> (r: Option<&'a [u8]>)
        requires
            old(self).within(),
        ensures
            final(self).within(),
            final(self).all() == old(self).all(),
            (match r {
                Some(s) => {
                    let from = old(self).pos();
                    &&& from + n <= old(self).all().len()
                    &&& s@ == old(self).all().subrange(from, from + n)
                    &&& final(self).pos() == from + n
                },
                None => {
                    &&& old(self).pos() + n > old(self).all().len()
                    &&& final(self).pos() == old(self).pos()
                },
            }),
    {
        if n > self.b.len() - self.at {
            return None;
        }
        let end: usize = self.at + n;
        let s = vstd::slice::slice_subrange(self.b, self.at, end);
        self.at = end;
        Some(s)
    }

    fn u8(&mut self) -> (r: Option<u8>)
        requires
            old(self).within(),
        ensures
            final(self).within(),
            final(self).all() == old(self).all(),
            reads(p_u8(old(self).all(), old(self).pos()), r, final(self).pos()),
            r is None ==> final(self).pos() == old(self).pos(),
    {
        match self.take(1) {
            Some(s) => Some(s[0]),
            None => None,
        }
    }

    fn u32(&mut self) -> (r: Option<u32>)
        requires
            old(self).within(),
        ensures
            final(self).within(),
            final(self).all() == old(self).all(),
            reads(p_u32(old(self).all(), old(self).pos()), r, final(self).pos()),
            r is None ==> final(self).pos() == old(self).pos(),
    {
        match self.take(4) {
            Some(s) => {
                let ghost b = old(self).all();
                let ghost p = old(self).pos();
                assert(s@[0] == b[p] && s@[1] == b[p + 1] && s@[2] == b[p + 2] && s@[3] == b[p + 3]);
                Some(get_be32(s, 0))
            },
            None => None,
        }
    }

    fn i32(&mut self) -> (r: Option<i32>)
        requires
            old(self).within(),
        ensures
            final(self).within(),
            final(self).all() == old(self).all(),
            reads(p_i32(old(self).all(), old(self).pos()), r, final(self).pos()),
            r is None ==> final(self).pos() == old(self).pos(),
    {
        match self.u32() {
            Some(n) => Some(n as i32),
            None => None,
        }
    }

    fn i64(&mut self) -> (r: Option<i64>)
        requires
            old(self).within(),
        ensures
            final(self).within(),
            final(self).all() == old(self).all(),
            reads(p_i64(old(self).all(), old(self).pos()), r, final(self).pos()),
            r is None ==> final(self).pos() == old(self).pos(),
    {
        match self.take(8) {
            Some(s) => {
                let ghost b = old(self).all();
                let ghost p = old(self).pos();
                assert(s@[0] == b[p] && s@[1] == b[p + 1] && s@[2] == b[p + 2] && s@[3] == b[p + 3]
                    && s@[4] == b[p + 4] && s@[5] == b[p + 5] && s@[6] == b[p + 6] && s@[7] == b[p
                    + 7]);
                assert(bytes::of_be64(s@, 0) == bytes::of_be64(b, p));
                Some(get_be64(s, 0) as i64)
            },
            None => None,
        }
    }

    fn bool(&mut self) -> (r: Option<bool>)
        requires
            old(self).within(),
        ensures
            final(self).within(),
            final(self).all() == old(self).all(),
            reads(p_bool(old(self).all(), old(self).pos()), r, final(self).pos()),
            r is None ==> final(self).pos() == old(self).pos(),
    {
        match self.u8() {
            Some(n) => Some(n != 0),
            None => None,
        }
    }

    fn bytes(&mut self) -> (r: Option<Vec<u8>>)
        requires
            old(self).within(),
        ensures
            final(self).within(),
            final(self).all() == old(self).all(),
            reads(
                p_bytes(old(self).all(), old(self).pos(), MAX_FIELD as nat),
                proto::bytes_opt(r),
                final(self).pos(),
            ),
    {
        let n: usize = match self.u32() {
            Some(n) => n as usize,
            None => {
                return None;
            },
        };
        if n > MAX_FIELD {
            return None;
        }
        match self.take(n) {
            Some(s) => Some(copy_bytes(s)),
            None => None,
        }
    }

    fn count(&mut self) -> (r: Option<usize>)
        requires
            old(self).within(),
        ensures
            final(self).within(),
            final(self).all() == old(self).all(),
            (match p_count(old(self).all(), old(self).pos()) {
                Some((n, e)) => r == Some(n as usize) && n <= MAX_ITEMS && final(self).pos() == e,
                None => r is None,
            }),
    {
        let n: usize = match self.u32() {
            Some(n) => n as usize,
            None => {
                return None;
            },
        };
        if n > MAX_ITEMS {
            return None;
        }
        Some(n)
    }

    /// Invalid UTF-8 fails the read rather than being replaced: the file is not what it claims.
    fn string(&mut self) -> (r: Option<String>)
        requires
            old(self).within(),
        ensures
            final(self).within(),
            final(self).all() == old(self).all(),
            reads(
                p_str(old(self).all(), old(self).pos(), MAX_FIELD as nat),
                proto::text_opt(r),
                final(self).pos(),
            ),
    {
        match self.bytes() {
            Some(b) => utf8_text(b),
            None => None,
        }
    }
}

fn kind_of(tag: u8) -> (r: Option<Kind>)
    ensures
        r == kind_for_tag(tag),
{
    if tag == 1 {
        Some(Kind::User)
    } else if tag == 2 {
        Some(Kind::Chat)
    } else if tag == 3 {
        Some(Kind::Channel)
    } else {
        None
    }
}

/// The delivery state a stored number is read as.
pub fn delivery_of(tag: u8) -> (r: Option<Delivery>)
    ensures
        r == delivery_for_tag(tag),
{
    if tag == 1 || tag == 4 {
        Some(Delivery::Failed)
    } else if tag == 2 {
        Some(Delivery::Sent)
    } else if tag == 3 {
        Some(Delivery::Read)
    } else {
        None
    }
}

fn read_peer(r: &mut Reader<'_>) -> (p: Option<Option<PeerRef>>)
    requires
        old(r).within(),
    ensures
        final(r).within(),
        final(r).all() == old(r).all(),
        reads(p_peer(old(r).all(), old(r).pos()), p, final(r).pos()),
{
    reveal(p_peer);
    let tag: u8 = r.u8()?;
    let id: i64 = r.i64()?;
    let access_hash: i64 = r.i64()?;
    if tag == 0 {
        return Some(None);
    }
    let kind = kind_of(tag)?;
    Some(Some(PeerRef { kind, id, access_hash }))
}

/// The values of an attachment that was read, if one was.
pub open spec fn read_view(m: Option<Option<Media>>) -> Option<Option<MediaView>> {
    match m {
        Some(m) => Some(model::media_opt(m)),
        None => None,
    }
}

/// Read an attachment. Nothing where the bytes hold none.
pub fn read_media(r: &mut Reader<'_>) -> (m: Option<Option<Media>>)
    requires
        old(r).within(),
    ensures
        final(r).within(),
        final(r).all() == old(r).all(),
        reads(
            p_media(old(r).all(), old(r).pos(), MAX_FIELD as nat),
            read_view(m),
            final(r).pos(),
        ),
{
    reveal(p_media);
    reveal(p_file);
    let tag: u8 = r.u8()?;
    if tag == 0 {
        return Some(None);
    }
    if tag == 6 {
        return Some(Some(Media::Unknown));
    }
    let id: i64 = r.i64()?;
    let access_hash: i64 = r.i64()?;
    let file_reference = r.bytes()?;
    let dc_id: i32 = r.i32()?;
    if tag == 1 {
        let thumb_size = r.string()?;
        let size: i64 = r.i64()?;
        Some(
            Some(
                Media::Photo {
                    id,
                    access_hash,
                    file_reference,
                    dc_id,
                    thumb_size,
                    size,
                    preview: None,
                },
            ),
        )
    } else if tag == 2 {
        let duration: i32 = r.i32()?;
        let wave = r.bytes()?;
        let size: i64 = r.i64()?;
        let waveform = if wave.len() == 0 {
            None
        } else {
            Some(wave)
        };
        Some(
            Some(
                Media::Voice { id, access_hash, file_reference, dc_id, duration, waveform, size },
            ),
        )
    } else if tag == 3 {
        let filename = r.string()?;
        let duration: i32 = r.i32()?;
        let size: i64 = r.i64()?;
        Some(
            Some(
                Media::Audio { id, access_hash, file_reference, dc_id, filename, duration, size },
            ),
        )
    } else if tag == 4 {
        let filename = r.string()?;
        let size: i64 = r.i64()?;
        Some(Some(Media::File { id, access_hash, file_reference, dc_id, filename, size }))
    } else if tag == 5 {
        let alt = r.string()?;
        Some(Some(Media::Sticker { id, access_hash, file_reference, dc_id, alt, preview: None }))
    } else {
        None
    }
}

/// The values of a message that was read, if one was.
pub open spec fn message_opt(m: Option<Message>) -> Option<MessageView> {
    match m {
        Some(m) => Some(m@),
        None => None,
    }
}

fn read_message(r: &mut Reader<'_>) -> (m: Option<Message>)
    requires
        old(r).within(),
    ensures
        final(r).within(),
        final(r).all() == old(r).all(),
        reads(
            p_message(old(r).all(), old(r).pos(), MAX_FIELD as nat),
            message_opt(m),
            final(r).pos(),
        ),
{
    reveal(p_message);
    let id: i32 = r.i32()?;
    let text = r.string()?;
    let outgoing = r.bool()?;
    let time = r.string()?;
    let tag: u8 = r.u8()?;
    let state = delivery_of(tag)?;
    let media = read_media(r)?;
    Some(Message { id, text, outgoing, time, state, media })
}

/// The values of a row that was read, if one was.
pub open spec fn chat_opt(c: Option<Chat>) -> Option<ChatView> {
    match c {
        Some(c) => Some(c@),
        None => None,
    }
}

fn read_row(r: &mut Reader<'_>) -> (c: Option<Chat>)
    requires
        old(r).within(),
    ensures
        final(r).within(),
        final(r).all() == old(r).all(),
        reads(
            p_row(old(r).all(), old(r).pos(), MAX_FIELD as nat),
            chat_opt(c),
            final(r).pos(),
        ),
{
    reveal(p_row);
    let peer = read_peer(r)?;
    let name = r.string()?;
    let time = r.string()?;
    let unread: u32 = r.u32()?;
    let last_outgoing = r.bool()?;
    let oldest: i32 = r.i32()?;
    let tag: u8 = r.u8()?;
    let mut messages: Vec<Message> = Vec::new();
    let ghost mut seen: Seq<MessageView> = seq![];
    if tag == 1 {
        let m = read_message(r)?;
        messages.push(m);
        proof {
            seen = seq![m@];
        }
    } else if tag != 0 {
        return None;
    }
    assert(model::message_views(messages@) =~= seen);
    Some(
        Chat {
            peer,
            oldest,
            complete: false,
            windowed: false,
            loading: false,
            name,
            time,
            unread,
            last_outgoing,
            messages,
        },
    )
}

/// Whether a file begins with the magic number and the version of this reader.
fn read_header(r: &mut Reader<'_>) -> (ok: bool)
    requires
        old(r).within(),
        old(r).pos() == 0,
    ensures
        final(r).within(),
        final(r).all() == old(r).all(),
        (match p_header(old(r).all()) {
            Some(e) => ok && final(r).pos() == e,
            None => !ok,
        }),
{
    match r.u32() {
        Some(magic) => if magic != MAGIC {
            false
        } else {
            match r.u8() {
                Some(version) => version == VERSION,
                None => false,
            }
        },
        None => false,
    }
}

/// The rows a list file holds, or nothing where anything at all is off.
pub open spec fn decoded_list(b: Seq<u8>) -> Option<Seq<ChatView>> {
    match p_list(b, MAX_FIELD as nat) {
        Some((rows, _)) => Some(rows),
        None => None,
    }
}

/// The messages and the cursor a conversation file holds, or nothing where anything is off.
pub open spec fn decoded_tail(b: Seq<u8>) -> Option<(Seq<MessageView>, i32)> {
    match p_tail(b, MAX_FIELD as nat) {
        Some((t, _)) => Some(t),
        None => None,
    }
}

/// If reading stops at some row, the whole list cannot be read.
proof fn lemma_rows_stop(b: Seq<u8>, at: int, i: nat, n: nat, lim: nat)
    requires
        i <= n,
        p_rows(b, at, i, lim) is None,
    ensures
        p_rows(b, at, n, lim) is None,
    decreases n - i,
{
    if i < n {
        lemma_rows_stop(b, at, i + 1, n, lim);
    }
}

/// If reading stops at some message, the whole tail cannot be read.
proof fn lemma_messages_stop(b: Seq<u8>, at: int, i: nat, n: nat, lim: nat)
    requires
        i <= n,
        p_messages(b, at, i, lim) is None,
    ensures
        p_messages(b, at, n, lim) is None,
    decreases n - i,
{
    if i < n {
        lemma_messages_stop(b, at, i + 1, n, lim);
    }
}

/// Decode a list file, or nothing if anything at all is off.
pub fn decode_list(file: &[u8]) -> (r: Option<Vec<Chat>>)
    ensures
        (match r {
            Some(chats) => decoded_list(file@) == Some(model::chat_views(chats@)),
            None => decoded_list(file@) is None,
        }),
{
    let ghost b = file@;
    let ghost lim = MAX_FIELD as nat;
    let mut r = Reader::new(file);
    if !read_header(&mut r) {
        return None;
    }
    let n: usize = match r.count() {
        Some(n) => n,
        None => {
            return None;
        },
    };
    let ghost at = r.pos();
    let mut chats: Vec<Chat> = Vec::new();
    assert(model::chat_views(chats@) =~= seq![]);
    let mut i: usize = 0;
    while i < n
        invariant
            i <= n,
            r.within(),
            r.all() == b,
            b == file@,
            lim == MAX_FIELD,
            p_list(b, lim) == p_rows(b, at, n as nat, lim),
            p_rows(b, at, i as nat, lim) == Some((model::chat_views(chats@), r.pos())),
        decreases n - i,
    {
        match read_row(&mut r) {
            Some(c) => {
                let ghost held = chats@;
                chats.push(c);
                assert(model::chat_views(held.push(c)) =~= model::chat_views(held).push(c@));
            },
            None => {
                proof {
                    lemma_rows_stop(b, at, (i + 1) as nat, n as nat, lim);
                }
                return None;
            },
        }
        i += 1;
    }
    Some(chats)
}

/// Decode a conversation file into its messages and the cursor that belongs with them.
pub fn decode_tail(file: &[u8]) -> (r: Option<(Vec<Message>, i32)>)
    ensures
        (match r {
            Some((messages, oldest)) => decoded_tail(file@) == Some(
                (model::message_views(messages@), oldest),
            ),
            None => decoded_tail(file@) is None,
        }),
{
    let ghost b = file@;
    let ghost lim = MAX_FIELD as nat;
    let mut r = Reader::new(file);
    if !read_header(&mut r) {
        return None;
    }
    let oldest: i32 = match r.i32() {
        Some(n) => n,
        None => {
            return None;
        },
    };
    let n: usize = match r.count() {
        Some(n) => n,
        None => {
            return None;
        },
    };
    let ghost at = r.pos();
    let mut out: Vec<Message> = Vec::new();
    assert(model::message_views(out@) =~= seq![]);
    let mut i: usize = 0;
    while i < n
        invariant
            i <= n,
            r.within(),
            r.all() == b,
            b == file@,
            lim == MAX_FIELD,
            p_tail(b, lim) == (match p_messages(b, at, n as nat, lim) {
                Some((all, e)) => Some(((all, oldest), e)),
                None => None,
            }),
            p_messages(b, at, i as nat, lim) == Some((model::message_views(out@), r.pos())),
        decreases n - i,
    {
        match read_message(&mut r) {
            Some(m) => {
                let ghost held = out@;
                out.push(m);
                assert(model::message_views(held.push(m)) =~= model::message_views(held).push(m@));
            },
            None => {
                proof {
                    lemma_messages_stop(b, at, (i + 1) as nat, n as nat, lim);
                }
                return None;
            },
        }
        i += 1;
    }
    Some((out, oldest))
}

} // verus!
