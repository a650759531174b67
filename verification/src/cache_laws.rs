//! What a stored list or conversation gives back.

use crate::bytes;
use crate::model::{ChatView, Delivery, MediaView, MessageView, PeerRef};
use crate::store_cache;
use crate::store_cache::{DISK_TAIL, MAGIC, MAX_FIELD, MAX_ITEMS, VERSION};
use vstd::prelude::*;
use vstd::utf8;

verus! {

broadcast use {bytes::be32_len, bytes::be64_len};

/// Whether a byte string is no longer than a limit.
pub open spec fn fits(b: Seq<u8>, lim: nat) -> bool {
    b.len() <= lim
}

/// Whether a text is no longer than a limit, in bytes.
pub open spec fn text_fits(s: Seq<char>, lim: nat) -> bool {
    utf8::encode_utf8(s).len() <= lim
}

/// Whether no field of an attachment is longer than a limit.
pub open spec fn media_fits(m: Option<MediaView>, lim: nat) -> bool {
    match m {
        None => true,
        Some(MediaView::Photo { file_reference, thumb_size, .. }) => fits(file_reference, lim)
            && text_fits(thumb_size, lim),
        Some(MediaView::Voice { file_reference, waveform, .. }) => fits(file_reference, lim) && fits(
            store_cache::or_empty(waveform),
            lim,
        ),
        Some(MediaView::Audio { file_reference, filename, .. }) => fits(file_reference, lim)
            && text_fits(filename, lim),
        Some(MediaView::File { file_reference, filename, .. }) => fits(file_reference, lim)
            && text_fits(filename, lim),
        Some(MediaView::Sticker { file_reference, alt, .. }) => fits(file_reference, lim)
            && text_fits(alt, lim),
        Some(MediaView::Unknown) => true,
    }
}

/// Whether no field of a message is longer than a limit.
pub open spec fn message_fits(m: MessageView, lim: nat) -> bool {
    text_fits(m.text, lim) && text_fits(m.time, lim) && media_fits(m.media, lim)
}

/// Whether no field a row stores is longer than a limit.
pub open spec fn row_fits(c: ChatView, lim: nat) -> bool {
    text_fits(c.name, lim) && text_fits(c.time, lim) && (c.messages.len() > 0 ==> message_fits(
        c.messages.last(),
        lim,
    ))
}

/// An attachment as it comes back: without its preview, and without an envelope that held nothing.
pub open spec fn restored_media(m: Option<MediaView>) -> Option<MediaView> {
    match m {
        Some(
            MediaView::Voice { id, access_hash, file_reference, dc_id, duration, waveform, size },
        ) => Some(
            MediaView::Voice {
                id,
                access_hash,
                file_reference,
                dc_id,
                duration,
                waveform: if store_cache::or_empty(waveform).len() == 0 {
                    None
                } else {
                    waveform
                },
                size,
            },
        ),
        Some(x) => Some(x.with_preview(None)),
        None => None,
    }
}

/// A delivery state as it comes back: what was still pending has failed.
pub open spec fn restored_state(d: Delivery) -> Delivery {
    if d == Delivery::Pending {
        Delivery::Failed
    } else {
        d
    }
}

/// A message as it comes back.
pub open spec fn restored_message(m: MessageView) -> MessageView {
    MessageView { state: restored_state(m.state), media: restored_media(m.media), ..m }
}

/// A chat as its row brings it back: a preview, so never complete, full or loading.
pub open spec fn restored_row(c: ChatView) -> ChatView {
    ChatView {
        complete: false,
        windowed: false,
        loading: false,
        messages: if c.messages.len() == 0 {
            seq![]
        } else {
            seq![restored_message(c.messages.last())]
        },
        ..c
    }
}

// ---- reading back what was written ----------------------------------------------------------------

/// Whether some bytes stand at a place.
#[verifier::opaque]
pub open spec fn stands(b: Seq<u8>, at: int, s: Seq<u8>) -> bool {
    0 <= at && at + s.len() <= b.len() && b.subrange(at, at + s.len()) == s
}

/// The largest length a prefix can carry.
pub open spec fn prefix_max() -> nat {
    0xffff_ffff
}

proof fn lemma_split(b: Seq<u8>, at: int, s: Seq<u8>, t: Seq<u8>)
    requires
        stands(b, at, s + t),
    ensures
        stands(b, at, s),
        stands(b, at + s.len(), t),
{
    reveal(stands);
    let both = b.subrange(at, at + (s + t).len());
    assert(both.take(s.len() as int) =~= b.subrange(at, at + s.len()));
    assert((s + t).take(s.len() as int) =~= s);
    assert(both.skip(s.len() as int) =~= b.subrange(at + s.len(), at + s.len() + t.len()));
    assert((s + t).skip(s.len() as int) =~= t);
}

proof fn lemma_u8(b: Seq<u8>, at: int, n: u8)
    requires
        stands(b, at, seq![n]),
    ensures
        store_cache::p_u8(b, at) == Some((n, at + 1)),
{
    reveal(stands);
    assert(b.subrange(at, at + 1)[0] == b[at]);
    assert(seq![n][0] == n);
}

proof fn lemma_u32(b: Seq<u8>, at: int, n: u32)
    requires
        stands(b, at, bytes::be32(n)),
    ensures
        store_cache::p_u32(b, at) == Some((n, at + 4)),
{
    reveal(stands);
    assert(bytes::be32(n).len() == 4);
    bytes::be32_round_trip(b, at, n);
}

proof fn lemma_i32(b: Seq<u8>, at: int, n: i32)
    requires
        stands(b, at, store_cache::enc_i32(n)),
    ensures
        store_cache::p_i32(b, at) == Some((n, at + 4)),
{
    lemma_u32(b, at, n as u32);
    bytes::signed32_round_trip(n);
}

proof fn lemma_i64(b: Seq<u8>, at: int, n: i64)
    requires
        stands(b, at, store_cache::enc_i64(n)),
    ensures
        store_cache::p_i64(b, at) == Some((n, at + 8)),
{
    reveal(stands);
    assert(bytes::be64(n as u64).len() == 8);
    bytes::be64_round_trip(b, at, n as u64);
    bytes::signed64_round_trip(n);
}

proof fn lemma_bool(b: Seq<u8>, at: int, v: bool)
    requires
        stands(b, at, store_cache::enc_bool(v)),
    ensures
        store_cache::p_bool(b, at) == Some((v, at + 1)),
{
    lemma_u8(b, at, if v { 1u8 } else { 0u8 });
}

proof fn lemma_bytes(b: Seq<u8>, at: int, s: Seq<u8>, lim: nat)
    requires
        stands(b, at, store_cache::enc_bytes(s)),
        s.len() <= lim,
        lim <= prefix_max(),
    ensures
        store_cache::p_bytes(b, at, lim) == Some((s, at + store_cache::enc_bytes(s).len())),
        store_cache::enc_bytes(s).len() == 4 + s.len(),
{
    reveal(stands);
    let n = store_cache::len32(s.len());
    assert(n == s.len());
    lemma_split(b, at, bytes::be32(n), s);
    lemma_u32(b, at, n);
}

proof fn lemma_str(b: Seq<u8>, at: int, s: Seq<char>, lim: nat)
    requires
        stands(b, at, store_cache::enc_str(s)),
        text_fits(s, lim),
        lim <= prefix_max(),
    ensures
        store_cache::p_str(b, at, lim) == Some((s, at + store_cache::enc_str(s).len())),
{
    lemma_bytes(b, at, utf8::encode_utf8(s), lim);
    utf8::encode_utf8_valid_utf8(s);
    utf8::encode_utf8_decode_utf8(s);
}

proof fn lemma_peer(b: Seq<u8>, at: int, p: Option<PeerRef>)
    requires
        stands(b, at, store_cache::enc_peer(p)),
    ensures
        store_cache::p_peer(b, at) == Some((p, at + store_cache::enc_peer(p).len())),
{
    reveal(store_cache::enc_peer);
    reveal(store_cache::p_peer);
    let (tag, id, hash) = match p {
        Some(p) => (store_cache::tag_of_kind(p.kind), p.id, p.access_hash),
        None => (0u8, 0i64, 0i64),
    };
    let s1 = seq![tag];
    let s2 = s1 + store_cache::enc_i64(id);
    lemma_split(b, at, s2, store_cache::enc_i64(hash));
    lemma_split(b, at, s1, store_cache::enc_i64(id));
    lemma_u8(b, at, tag);
    lemma_i64(b, at + 1, id);
    lemma_i64(b, at + 9, hash);
}

proof fn lemma_file(
    b: Seq<u8>,
    at: int,
    tag: u8,
    id: i64,
    hash: i64,
    reference: Seq<u8>,
    dc: i32,
    lim: nat,
)
    requires
        stands(b, at, store_cache::enc_file(tag, id, hash, reference, dc)),
        fits(reference, lim),
        lim <= prefix_max(),
    ensures
        store_cache::p_u8(b, at) == Some((tag, at + 1)),
        store_cache::p_file(b, at + 1, lim) == Some(
            (
                (id, hash, reference, dc),
                at + store_cache::enc_file(tag, id, hash, reference, dc).len(),
            ),
        ),
{
    reveal(store_cache::enc_file);
    reveal(store_cache::p_file);
    let s1 = seq![tag];
    let s2 = s1 + store_cache::enc_i64(id);
    let s3 = s2 + store_cache::enc_i64(hash);
    let s4 = s3 + store_cache::enc_bytes(reference);
    lemma_split(b, at, s4, store_cache::enc_i32(dc));
    lemma_split(b, at, s3, store_cache::enc_bytes(reference));
    lemma_split(b, at, s2, store_cache::enc_i64(hash));
    lemma_split(b, at, s1, store_cache::enc_i64(id));
    lemma_u8(b, at, tag);
    lemma_i64(b, at + 1, id);
    lemma_i64(b, at + 9, hash);
    lemma_bytes(b, at + 17, reference, lim);
    lemma_i32(b, at + s4.len(), dc);
}

#[verifier::spinoff_prover]
#[verifier::rlimit(40)]
proof fn lemma_media(b: Seq<u8>, at: int, m: Option<MediaView>, lim: nat)
    requires
        stands(b, at, store_cache::enc_media(m)),
        media_fits(m, lim),
        lim <= prefix_max(),
    ensures
        store_cache::p_media(b, at, lim) == Some(
            (restored_media(m), at + store_cache::enc_media(m).len()),
        ),
{
    reveal(store_cache::enc_media);
    reveal(store_cache::p_media);
    match m {
        None => {
            lemma_u8(b, at, 0);
        },
        Some(MediaView::Photo { id, access_hash, file_reference, dc_id, thumb_size, size, .. }) => {
            let s1 = store_cache::enc_file(1, id, access_hash, file_reference, dc_id);
            let s2 = s1 + store_cache::enc_str(thumb_size);
            lemma_split(b, at, s2, store_cache::enc_i64(size));
            lemma_split(b, at, s1, store_cache::enc_str(thumb_size));
            lemma_file(b, at, 1, id, access_hash, file_reference, dc_id, lim);
            lemma_str(b, at + s1.len(), thumb_size, lim);
            lemma_i64(b, at + s2.len(), size);
        },
        Some(
            MediaView::Voice { id, access_hash, file_reference, dc_id, duration, waveform, size },
        ) => {
            let wave = store_cache::or_empty(waveform);
            let s1 = store_cache::enc_file(2, id, access_hash, file_reference, dc_id);
            let s2 = s1 + store_cache::enc_i32(duration);
            let s3 = s2 + store_cache::enc_bytes(wave);
            lemma_split(b, at, s3, store_cache::enc_i64(size));
            lemma_split(b, at, s2, store_cache::enc_bytes(wave));
            lemma_split(b, at, s1, store_cache::enc_i32(duration));
            lemma_file(b, at, 2, id, access_hash, file_reference, dc_id, lim);
            lemma_i32(b, at + s1.len(), duration);
            lemma_bytes(b, at + s2.len(), wave, lim);
            lemma_i64(b, at + s3.len(), size);
        },
        Some(
            MediaView::Audio { id, access_hash, file_reference, dc_id, filename, duration, size },
        ) => {
            let s1 = store_cache::enc_file(3, id, access_hash, file_reference, dc_id);
            let s2 = s1 + store_cache::enc_str(filename);
            let s3 = s2 + store_cache::enc_i32(duration);
            lemma_split(b, at, s3, store_cache::enc_i64(size));
            lemma_split(b, at, s2, store_cache::enc_i32(duration));
            lemma_split(b, at, s1, store_cache::enc_str(filename));
            lemma_file(b, at, 3, id, access_hash, file_reference, dc_id, lim);
            lemma_str(b, at + s1.len(), filename, lim);
            lemma_i32(b, at + s2.len(), duration);
            lemma_i64(b, at + s3.len(), size);
        },
        Some(MediaView::File { id, access_hash, file_reference, dc_id, filename, size }) => {
            let s1 = store_cache::enc_file(4, id, access_hash, file_reference, dc_id);
            let s2 = s1 + store_cache::enc_str(filename);
            lemma_split(b, at, s2, store_cache::enc_i64(size));
            lemma_split(b, at, s1, store_cache::enc_str(filename));
            lemma_file(b, at, 4, id, access_hash, file_reference, dc_id, lim);
            lemma_str(b, at + s1.len(), filename, lim);
            lemma_i64(b, at + s2.len(), size);
        },
        Some(MediaView::Sticker { id, access_hash, file_reference, dc_id, alt, .. }) => {
            let s1 = store_cache::enc_file(5, id, access_hash, file_reference, dc_id);
            lemma_split(b, at, s1, store_cache::enc_str(alt));
            lemma_file(b, at, 5, id, access_hash, file_reference, dc_id, lim);
            lemma_str(b, at + s1.len(), alt, lim);
        },
        Some(MediaView::Unknown) => {
            lemma_u8(b, at, 6);
        },
    }
}

proof fn lemma_message(b: Seq<u8>, at: int, m: MessageView, lim: nat)
    requires
        stands(b, at, store_cache::enc_message(m)),
        message_fits(m, lim),
        lim <= prefix_max(),
    ensures
        store_cache::p_message(b, at, lim) == Some(
            (restored_message(m), at + store_cache::enc_message(m).len()),
        ),
{
    reveal(store_cache::enc_message);
    reveal(store_cache::p_message);
    let tag = store_cache::tag_of_delivery(m.state);
    let s1 = store_cache::enc_i32(m.id);
    let s2 = s1 + store_cache::enc_str(m.text);
    let s3 = s2 + store_cache::enc_bool(m.outgoing);
    let s4 = s3 + store_cache::enc_str(m.time);
    let s5 = s4 + seq![tag];
    lemma_split(b, at, s5, store_cache::enc_media(m.media));
    lemma_split(b, at, s4, seq![tag]);
    lemma_split(b, at, s3, store_cache::enc_str(m.time));
    lemma_split(b, at, s2, store_cache::enc_bool(m.outgoing));
    lemma_split(b, at, s1, store_cache::enc_str(m.text));
    lemma_i32(b, at, m.id);
    lemma_str(b, at + s1.len(), m.text, lim);
    lemma_bool(b, at + s2.len(), m.outgoing);
    lemma_str(b, at + s3.len(), m.time, lim);
    lemma_u8(b, at + s4.len(), tag);
    lemma_media(b, at + s5.len(), m.media, lim);
}

proof fn lemma_last(b: Seq<u8>, at: int, s: Seq<MessageView>, lim: nat)
    requires
        stands(b, at, store_cache::enc_last(s)),
        s.len() > 0 ==> message_fits(s.last(), lim),
        lim <= prefix_max(),
    ensures
        store_cache::p_last(b, at, lim) == Some(
            (
                if s.len() == 0 {
                    seq![]
                } else {
                    seq![restored_message(s.last())]
                },
                at + store_cache::enc_last(s).len(),
            ),
        ),
{
    if s.len() == 0 {
        lemma_u8(b, at, 0);
    } else {
        lemma_split(b, at, seq![1u8], store_cache::enc_message(s.last()));
        lemma_u8(b, at, 1);
        lemma_message(b, at + 1, s.last(), lim);
    }
}

proof fn lemma_row(b: Seq<u8>, at: int, c: ChatView, lim: nat)
    requires
        stands(b, at, store_cache::enc_row(c)),
        row_fits(c, lim),
        lim <= prefix_max(),
    ensures
        store_cache::p_row(b, at, lim) == Some(
            (restored_row(c), at + store_cache::enc_row(c).len()),
        ),
{
    reveal(store_cache::enc_row);
    reveal(store_cache::p_row);
    let s1 = store_cache::enc_peer(c.peer);
    let s2 = s1 + store_cache::enc_str(c.name);
    let s3 = s2 + store_cache::enc_str(c.time);
    let s4 = s3 + bytes::be32(c.unread);
    let s5 = s4 + store_cache::enc_bool(c.last_outgoing);
    let s6 = s5 + store_cache::enc_i32(c.oldest);
    lemma_split(b, at, s6, store_cache::enc_last(c.messages));
    lemma_split(b, at, s5, store_cache::enc_i32(c.oldest));
    lemma_split(b, at, s4, store_cache::enc_bool(c.last_outgoing));
    lemma_split(b, at, s3, bytes::be32(c.unread));
    lemma_split(b, at, s2, store_cache::enc_str(c.time));
    lemma_split(b, at, s1, store_cache::enc_str(c.name));
    lemma_peer(b, at, c.peer);
    lemma_str(b, at + s1.len(), c.name, lim);
    lemma_str(b, at + s2.len(), c.time, lim);
    lemma_u32(b, at + s3.len(), c.unread);
    lemma_bool(b, at + s4.len(), c.last_outgoing);
    lemma_i32(b, at + s5.len(), c.oldest);
    lemma_last(b, at + s6.len(), c.messages, lim);
}

/// Some chats as their rows bring them back.
pub open spec fn restored_rows(s: Seq<ChatView>) -> Seq<ChatView> {
    Seq::new(s.len(), |i: int| restored_row(s[i]))
}

/// Some messages as they come back.
pub open spec fn restored_messages(s: Seq<MessageView>) -> Seq<MessageView> {
    Seq::new(s.len(), |i: int| restored_message(s[i]))
}

proof fn lemma_rows(b: Seq<u8>, at: int, s: Seq<ChatView>, lim: nat)
    requires
        stands(b, at, store_cache::enc_rows(s)),
        forall|i: int| 0 <= i < s.len() ==> row_fits(#[trigger] s[i], lim),
        lim <= prefix_max(),
    ensures
        store_cache::p_rows(b, at, s.len(), lim) == Some(
            (restored_rows(s), at + store_cache::enc_rows(s).len()),
        ),
    decreases s.len(),
{
    if s.len() == 0 {
        assert(restored_rows(s) =~= seq![]);
    } else {
        let front = s.drop_last();
        lemma_split(b, at, store_cache::enc_rows(front), store_cache::enc_row(s.last()));
        assert forall|i: int| 0 <= i < front.len() implies row_fits(#[trigger] front[i], lim) by {
            assert(front[i] == s[i]);
        }
        lemma_rows(b, at, front, lim);
        lemma_row(b, at + store_cache::enc_rows(front).len(), s.last(), lim);
        assert(restored_rows(s) =~= restored_rows(front).push(restored_row(s.last())));
    }
}

proof fn lemma_messages(b: Seq<u8>, at: int, s: Seq<MessageView>, lim: nat)
    requires
        stands(b, at, store_cache::enc_messages(s)),
        forall|i: int| 0 <= i < s.len() ==> message_fits(#[trigger] s[i], lim),
        lim <= prefix_max(),
    ensures
        store_cache::p_messages(b, at, s.len(), lim) == Some(
            (restored_messages(s), at + store_cache::enc_messages(s).len()),
        ),
    decreases s.len(),
{
    if s.len() == 0 {
        assert(restored_messages(s) =~= seq![]);
    } else {
        let front = s.drop_last();
        lemma_split(b, at, store_cache::enc_messages(front), store_cache::enc_message(s.last()));
        assert forall|i: int| 0 <= i < front.len() implies message_fits(
            #[trigger] front[i],
            lim,
        ) by {
            assert(front[i] == s[i]);
        }
        lemma_messages(b, at, front, lim);
        lemma_message(b, at + store_cache::enc_messages(front).len(), s.last(), lim);
        assert(restored_messages(s) =~= restored_messages(front).push(restored_message(s.last())));
    }
}

proof fn lemma_header(b: Seq<u8>)
    requires
        stands(b, 0, store_cache::enc_header()),
    ensures
        store_cache::p_header(b) == Some(5int),
{
    lemma_split(b, 0, bytes::be32(MAGIC), seq![VERSION]);
    lemma_u32(b, 0, MAGIC);
    lemma_u8(b, 4, VERSION);
}

proof fn lemma_list(s: Seq<ChatView>, lim: nat)
    requires
        forall|i: int|
            0 <= i < store_cache::stored_rows(s).len() ==> row_fits(
                #[trigger] store_cache::stored_rows(s)[i],
                lim,
            ),
        lim <= prefix_max(),
    ensures
        store_cache::p_list(store_cache::enc_list(s), lim) == Some(
            (
                restored_rows(store_cache::stored_rows(s)),
                store_cache::enc_list(s).len() as int,
            ),
        ),
{
    reveal(stands);
    let b = store_cache::enc_list(s);
    let rows = store_cache::stored_rows(s);
    let head = store_cache::enc_header();
    let count = bytes::be32(rows.len() as u32);
    assert(b.subrange(0, b.len() as int) =~= b);
    lemma_split(b, 0, head + count, store_cache::enc_rows(rows));
    lemma_split(b, 0, head, count);
    lemma_header(b);
    lemma_u32(b, 5, rows.len() as u32);
    lemma_rows(b, 9, rows, lim);
}

proof fn lemma_tail(c: ChatView, lim: nat)
    requires
        forall|i: int|
            0 <= i < store_cache::stored_tail(c.messages).len() ==> message_fits(
                #[trigger] store_cache::stored_tail(c.messages)[i],
                lim,
            ),
        lim <= prefix_max(),
    ensures
        store_cache::p_tail(store_cache::enc_tail(c), lim) == Some(
            (
                (restored_messages(store_cache::stored_tail(c.messages)), c.oldest),
                store_cache::enc_tail(c).len() as int,
            ),
        ),
{
    reveal(stands);
    let b = store_cache::enc_tail(c);
    let tail = store_cache::stored_tail(c.messages);
    let head = store_cache::enc_header();
    let cursor = store_cache::enc_i32(c.oldest);
    let count = bytes::be32(tail.len() as u32);
    assert(b.subrange(0, b.len() as int) =~= b);
    lemma_split(b, 0, head + cursor + count, store_cache::enc_messages(tail));
    lemma_split(b, 0, head + cursor, count);
    lemma_split(b, 0, head, cursor);
    lemma_header(b);
    lemma_i32(b, 5, c.oldest);
    lemma_u32(b, 9, tail.len() as u32);
    lemma_messages(b, 13, tail, lim);
}

/// An attachment comes back as it went in, without its preview and without an envelope that held
/// nothing, and reading it takes exactly the bytes that were written.
pub proof fn an_attachment_survives_a_round_trip(m: Option<MediaView>)
    requires
        media_fits(m, MAX_FIELD as nat),
    ensures
        store_cache::p_media(store_cache::enc_media(m), 0, MAX_FIELD as nat) == Some(
            (restored_media(m), store_cache::enc_media(m).len() as int),
        ),
{
    reveal(stands);
    let b = store_cache::enc_media(m);
    assert(b.subrange(0, b.len() as int) =~= b);
    lemma_media(b, 0, m, MAX_FIELD as nat);
}

/// A kind of attachment that is not known is refused.
pub proof fn an_unknown_attachment_is_refused(b: Seq<u8>, at: int, lim: nat)
    requires
        0 <= at < b.len(),
        b[at] > 6,
    ensures
        store_cache::p_media(b, at, lim) is None,
{
    reveal(store_cache::p_media);
}

/// A message that still waited when it was written comes back as failed, and any other state as it
/// was; no stored number is read as a message that waits.
pub proof fn a_waiting_message_comes_back_as_failed(d: Delivery, tag: u8)
    ensures
        store_cache::delivery_for_tag(store_cache::tag_of_delivery(d)) == Some(restored_state(d)),
        store_cache::delivery_for_tag(tag) is None <==> tag == 0 || tag > 4,
        store_cache::delivery_for_tag(tag) != Some(Delivery::Pending),
{
}

/// A chat list comes back from its file as it went in, up to [`MAX_ITEMS`] rows: every row keeps
/// its peer, name, time, count, cursor and the message it previews.
pub proof fn a_list_survives_a_round_trip(s: Seq<ChatView>)
    requires
        forall|i: int|
            0 <= i < s.len() && i < MAX_ITEMS ==> row_fits(#[trigger] s[i], MAX_FIELD as nat),
    ensures
        store_cache::decoded_list(store_cache::enc_list(s)) == Some(
            restored_rows(store_cache::stored_rows(s)),
        ),
{
    lemma_list(s, MAX_FIELD as nat);
}

/// A conversation comes back from its file as it went in: the newest [`DISK_TAIL`] messages in
/// order, and the cursor.
pub proof fn a_tail_survives_a_round_trip(c: ChatView)
    requires
        forall|i: int|
            c.messages.len() - DISK_TAIL <= i && 0 <= i < c.messages.len() ==> message_fits(
                #[trigger] c.messages[i],
                MAX_FIELD as nat,
            ),
    ensures
        store_cache::decoded_tail(store_cache::enc_tail(c)) == Some(
            (restored_messages(store_cache::stored_tail(c.messages)), c.oldest),
        ),
{
    let tail = store_cache::stored_tail(c.messages);
    let skipped = c.messages.len() - tail.len();
    assert forall|i: int| 0 <= i < tail.len() implies message_fits(
        #[trigger] tail[i],
        MAX_FIELD as nat,
    ) by {
        assert(tail[i] == c.messages[i + skipped]);
    }
    lemma_tail(c, MAX_FIELD as nat);
}

// ---- all or nothing -------------------------------------------------------------------------------

/// Whether a parser that succeeded on some bytes gives the same answer on more of them, under a
/// limit that is no lower, and stopped within the first.
pub open spec fn carries_over<T>(
    short: Option<(T, int)>,
    long: Option<(T, int)>,
    at: int,
    len: nat,
) -> bool {
    match short {
        Some((v, e)) => at <= e <= len && long == short,
        None => true,
    }
}

proof fn more_u8(b: Seq<u8>, ext: Seq<u8>, at: int)
    requires
        0 <= at,
    ensures
        carries_over(store_cache::p_u8(b, at), store_cache::p_u8(b + ext, at), at, b.len()),
{
}

proof fn more_u32(b: Seq<u8>, ext: Seq<u8>, at: int)
    requires
        0 <= at,
    ensures
        carries_over(store_cache::p_u32(b, at), store_cache::p_u32(b + ext, at), at, b.len()),
        carries_over(store_cache::p_i32(b, at), store_cache::p_i32(b + ext, at), at, b.len()),
        carries_over(store_cache::p_bool(b, at), store_cache::p_bool(b + ext, at), at, b.len()),
        carries_over(store_cache::p_count(b, at), store_cache::p_count(b + ext, at), at, b.len()),
{
}

proof fn more_i64(b: Seq<u8>, ext: Seq<u8>, at: int)
    requires
        0 <= at,
    ensures
        carries_over(store_cache::p_i64(b, at), store_cache::p_i64(b + ext, at), at, b.len()),
{
    if at + 8 <= b.len() {
        let all = b + ext;
        assert(forall|i: int| at <= i < at + 8 ==> all[i] == b[i]);
        assert(bytes::of_be32(all, at) == bytes::of_be32(b, at));
        assert(bytes::of_be32(all, at + 4) == bytes::of_be32(b, at + 4));
    }
}

proof fn more_bytes(b: Seq<u8>, ext: Seq<u8>, at: int, lim: nat, high: nat)
    requires
        0 <= at,
        lim <= high,
    ensures
        carries_over(
            store_cache::p_bytes(b, at, lim),
            store_cache::p_bytes(b + ext, at, high),
            at,
            b.len(),
        ),
        carries_over(
            store_cache::p_str(b, at, lim),
            store_cache::p_str(b + ext, at, high),
            at,
            b.len(),
        ),
{
    more_u32(b, ext, at);
    match store_cache::p_bytes(b, at, lim) {
        Some((s, e)) => {
            let n = s.len();
            assert((b + ext).subrange(e - n, e) =~= b.subrange(e - n, e));
        },
        None => {},
    }
}

proof fn more_peer(b: Seq<u8>, ext: Seq<u8>, at: int)
    requires
        0 <= at,
    ensures
        carries_over(store_cache::p_peer(b, at), store_cache::p_peer(b + ext, at), at, b.len()),
{
    reveal(store_cache::p_peer);
    more_u8(b, ext, at);
    more_i64(b, ext, at + 1);
    more_i64(b, ext, at + 9);
}

proof fn more_file(b: Seq<u8>, ext: Seq<u8>, at: int, lim: nat, high: nat)
    requires
        0 <= at,
        lim <= high,
    ensures
        carries_over(
            store_cache::p_file(b, at, lim),
            store_cache::p_file(b + ext, at, high),
            at,
            b.len(),
        ),
{
    reveal(store_cache::p_file);
    more_i64(b, ext, at);
    more_i64(b, ext, at + 8);
    more_bytes(b, ext, at + 16, lim, high);
    match store_cache::p_bytes(b, at + 16, lim) {
        Some((_, e)) => {
            more_u32(b, ext, e);
        },
        None => {},
    }
}

proof fn more_media(b: Seq<u8>, ext: Seq<u8>, at: int, lim: nat, high: nat)
    requires
        0 <= at,
        lim <= high,
    ensures
        carries_over(
            store_cache::p_media(b, at, lim),
            store_cache::p_media(b + ext, at, high),
            at,
            b.len(),
        ),
{
    reveal(store_cache::p_media);
    more_u8(b, ext, at);
    more_file(b, ext, at + 1, lim, high);
    match store_cache::p_file(b, at + 1, lim) {
        Some((f, e)) => {
            more_bytes(b, ext, e, lim, high);
            more_u32(b, ext, e);
            more_bytes(b, ext, e + 4, lim, high);
            match store_cache::p_str(b, e, lim) {
                Some((_, e2)) => {
                    more_u32(b, ext, e2);
                    more_i64(b, ext, e2);
                    more_i64(b, ext, e2 + 4);
                },
                None => {},
            }
            match store_cache::p_bytes(b, e + 4, lim) {
                Some((_, e2)) => {
                    more_i64(b, ext, e2);
                },
                None => {},
            }
        },
        None => {},
    }
}

proof fn more_message(b: Seq<u8>, ext: Seq<u8>, at: int, lim: nat, high: nat)
    requires
        0 <= at,
        lim <= high,
    ensures
        carries_over(
            store_cache::p_message(b, at, lim),
            store_cache::p_message(b + ext, at, high),
            at,
            b.len(),
        ),
{
    reveal(store_cache::p_message);
    more_u32(b, ext, at);
    more_bytes(b, ext, at + 4, lim, high);
    match store_cache::p_str(b, at + 4, lim) {
        Some((_, e2)) => {
            more_u32(b, ext, e2);
            more_bytes(b, ext, e2 + 1, lim, high);
            match store_cache::p_str(b, e2 + 1, lim) {
                Some((_, e4)) => {
                    more_u8(b, ext, e4);
                    more_media(b, ext, e4 + 1, lim, high);
                },
                None => {},
            }
        },
        None => {},
    }
}

proof fn more_last(b: Seq<u8>, ext: Seq<u8>, at: int, lim: nat, high: nat)
    requires
        0 <= at,
        lim <= high,
    ensures
        carries_over(
            store_cache::p_last(b, at, lim),
            store_cache::p_last(b + ext, at, high),
            at,
            b.len(),
        ),
{
    more_u8(b, ext, at);
    more_message(b, ext, at + 1, lim, high);
}

proof fn more_row(b: Seq<u8>, ext: Seq<u8>, at: int, lim: nat, high: nat)
    requires
        0 <= at,
        lim <= high,
    ensures
        carries_over(
            store_cache::p_row(b, at, lim),
            store_cache::p_row(b + ext, at, high),
            at,
            b.len(),
        ),
{
    reveal(store_cache::p_row);
    more_peer(b, ext, at);
    match store_cache::p_peer(b, at) {
        Some((_, e1)) => {
            more_bytes(b, ext, e1, lim, high);
            match store_cache::p_str(b, e1, lim) {
                Some((_, e2)) => {
                    more_bytes(b, ext, e2, lim, high);
                    match store_cache::p_str(b, e2, lim) {
                        Some((_, e3)) => {
                            more_u32(b, ext, e3);
                            more_u32(b, ext, e3 + 4);
                            more_u32(b, ext, e3 + 5);
                            more_last(b, ext, e3 + 9, lim, high);
                        },
                        None => {},
                    }
                },
                None => {},
            }
        },
        None => {},
    }
}

proof fn more_rows(b: Seq<u8>, ext: Seq<u8>, at: int, n: nat, lim: nat, high: nat)
    requires
        0 <= at <= b.len(),
        lim <= high,
    ensures
        carries_over(
            store_cache::p_rows(b, at, n, lim),
            store_cache::p_rows(b + ext, at, n, high),
            at,
            b.len(),
        ),
    decreases n,
{
    if n > 0 {
        more_rows(b, ext, at, (n - 1) as nat, lim, high);
        match store_cache::p_rows(b, at, (n - 1) as nat, lim) {
            Some((_, e)) => {
                more_row(b, ext, e, lim, high);
            },
            None => {},
        }
    }
}

proof fn more_messages(b: Seq<u8>, ext: Seq<u8>, at: int, n: nat, lim: nat, high: nat)
    requires
        0 <= at <= b.len(),
        lim <= high,
    ensures
        carries_over(
            store_cache::p_messages(b, at, n, lim),
            store_cache::p_messages(b + ext, at, n, high),
            at,
            b.len(),
        ),
    decreases n,
{
    if n > 0 {
        more_messages(b, ext, at, (n - 1) as nat, lim, high);
        match store_cache::p_messages(b, at, (n - 1) as nat, lim) {
            Some((_, e)) => {
                more_message(b, ext, e, lim, high);
            },
            None => {},
        }
    }
}

proof fn more_list(b: Seq<u8>, ext: Seq<u8>, lim: nat, high: nat)
    requires
        lim <= high,
    ensures
        carries_over(
            store_cache::p_list(b, lim),
            store_cache::p_list(b + ext, high),
            0,
            b.len(),
        ),
        carries_over(
            store_cache::p_tail(b, lim),
            store_cache::p_tail(b + ext, high),
            0,
            b.len(),
        ),
{
    more_u32(b, ext, 0);
    more_u8(b, ext, 4);
    more_u32(b, ext, 5);
    more_u32(b, ext, 9);
    match store_cache::p_count(b, 5) {
        Some((n, e)) => {
            more_rows(b, ext, 9, n, lim, high);
        },
        None => {},
    }
    match store_cache::p_count(b, 9) {
        Some((n, e)) => {
            more_messages(b, ext, 13, n, lim, high);
        },
        None => {},
    }
}

/// A list file that was cut anywhere is a miss, never a shorter list. Holds whatever the list
/// held: no field can outgrow its length prefix on a machine this runs on.
pub proof fn a_cut_list_is_a_miss(s: Seq<ChatView>, cut: int)
    requires
        0 <= cut < store_cache::enc_list(s).len(),
        forall|i: int|
            0 <= i < s.len() && i < MAX_ITEMS ==> row_fits(#[trigger] s[i], prefix_max()),
    ensures
        store_cache::decoded_list(store_cache::enc_list(s).take(cut)) is None,
{
    let full = store_cache::enc_list(s);
    lemma_list(s, prefix_max());
    more_list(full.take(cut), full.skip(cut), MAX_FIELD as nat, prefix_max());
    assert(full.take(cut) + full.skip(cut) =~= full);
}

/// A conversation file that was cut anywhere is a miss, never a shorter conversation.
pub proof fn a_cut_tail_is_a_miss(c: ChatView, cut: int)
    requires
        0 <= cut < store_cache::enc_tail(c).len(),
        forall|i: int|
            0 <= i < c.messages.len() && c.messages.len() - DISK_TAIL <= i ==> message_fits(
                #[trigger] c.messages[i],
                prefix_max(),
            ),
    ensures
        store_cache::decoded_tail(store_cache::enc_tail(c).take(cut)) is None,
{
    let full = store_cache::enc_tail(c);
    let tail = store_cache::stored_tail(c.messages);
    let skipped = c.messages.len() - tail.len();
    assert forall|i: int| 0 <= i < tail.len() implies message_fits(
        #[trigger] tail[i],
        prefix_max(),
    ) by {
        assert(tail[i] == c.messages[i + skipped]);
    }
    lemma_tail(c, prefix_max());
    more_list(full.take(cut), full.skip(cut), MAX_FIELD as nat, prefix_max());
    assert(full.take(cut) + full.skip(cut) =~= full);
}

/// A file with another magic number or another version is a miss.
pub proof fn a_foreign_file_is_a_miss(b: Seq<u8>)
    requires
        b.len() < 5 || bytes::of_be32(b, 0) != MAGIC || b[4] != VERSION,
    ensures
        store_cache::decoded_list(b) is None,
        store_cache::decoded_tail(b) is None,
{
}

/// Whatever a file holds, a chat restored from it is a preview: at most one message, and neither
/// complete nor full nor loading.
pub proof fn a_restored_chat_is_a_preview(b: Seq<u8>, i: int)
    requires
        store_cache::decoded_list(b) is Some,
        0 <= i < store_cache::decoded_list(b)->0.len(),
    ensures
        ({
            let c = store_cache::decoded_list(b)->0[i];
            !c.complete && !c.windowed && !c.loading && c.messages.len() <= 1
        }),
{
    let (n, at) = store_cache::p_count(b, store_cache::p_header(b)->0)->0;
    lemma_rows_are_previews(b, at, n, MAX_FIELD as nat);
}

proof fn lemma_rows_are_previews(b: Seq<u8>, at: int, n: nat, lim: nat)
    ensures
        (match store_cache::p_rows(b, at, n, lim) {
            Some((rows, _)) => rows.len() == n && forall|i: int|
                0 <= i < rows.len() ==> !(#[trigger] rows[i]).complete && !rows[i].windowed
                    && !rows[i].loading && rows[i].messages.len() <= 1,
            None => true,
        }),
    decreases n,
{
    reveal(store_cache::p_row);
    if n > 0 {
        lemma_rows_are_previews(b, at, (n - 1) as nat, lim);
    }
}

} // verus!
