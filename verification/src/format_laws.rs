//! How things are written down: bytes, files and names are what other readers of them expect.

use crate::app;
use crate::bytes;
use crate::cache_files;
use crate::driver;
use crate::link;
use crate::link::{ClientError, HandshakeError, LinkView, NoteView, TlError};
use crate::login::AuthError;
use crate::model::{ChatView, Delivery, MediaView, MessageView, PeerRef};
use crate::pages;
use crate::proto::Kind;
use crate::selfcheck;
use crate::selfcheck::{Replay, Tape};
use crate::session_store;
use crate::session_store::Stored;
use crate::store_cache;
use crate::text;
use vstd::prelude::*;
use vstd::utf8::encode_utf8;

verus! {

broadcast use {bytes::be32_len, bytes::be64_len};

// ---- numbers --------------------------------------------------------------------------------------

/// A number is written most significant byte first.
pub proof fn numbers_are_big_endian(n: u32)
    ensures
        bytes::be32(n).len() == 4,
        bytes::be32(n)[0] as int * 0x100_0000 + bytes::be32(n)[1] as int * 0x1_0000 + bytes::be32(
            n,
        )[2] as int * 0x100 + bytes::be32(n)[3] as int == n,
{
    reveal(bytes::be32);
    assert(((n >> 24u32) & 0xff) as u8 as u32 == n / 0x100_0000 && ((n >> 16u32) & 0xff) as u8 as u32
        == n / 0x1_0000 % 0x100 && ((n >> 8u32) & 0xff) as u8 as u32 == n / 0x100 % 0x100 && (n
        & 0xff) as u8 as u32 == n % 0x100) by (bit_vector);
}

/// A number of eight bytes is its upper half and then its lower half.
pub proof fn wide_numbers_are_big_endian(n: u64)
    ensures
        bytes::be64(n).len() == 8,
        bytes::be64(n).take(4) == bytes::be32((n / 0x1_0000_0000) as u32),
        bytes::be64(n).skip(4) == bytes::be32((n % 0x1_0000_0000) as u32),
{
    reveal(bytes::be64);
    assert(n >> 32u64 == n / 0x1_0000_0000 && n & 0xffff_ffff == n % 0x1_0000_0000) by (bit_vector);
    assert(bytes::be64(n).take(4) =~= bytes::be32((n / 0x1_0000_0000) as u32));
    assert(bytes::be64(n).skip(4) =~= bytes::be32((n % 0x1_0000_0000) as u32));
}

// ---- the session ----------------------------------------------------------------------------------

/// A session is kept as one record: a mark, the data centre, the difference of the clocks, the access
/// point, the key, its number and the salt, each in its own place.
pub proof fn a_record_has_each_part_in_its_place(s: Stored)
    requires
        s.auth.key@.len() == 256,
        s.salt@.len() == 8,
    ensures
        ({
            let b = session_store::record(s);
            &&& b.len() == 289
            &&& b.subrange(0, 4) == bytes::be32(0x7467_5333)
            &&& b[4] == s.dc
            &&& b.subrange(5, 13) == bytes::be64(s.time_offset as u64)
            &&& b.subrange(13, 17) == bytes::be32(s.iap)
            &&& b.subrange(17, 273) == s.auth.key@
            &&& b.subrange(273, 281) == bytes::be64(s.auth.id)
            &&& b.subrange(281, 289) == s.salt@
        }),
{
    let b = session_store::record(s);
    assert(b.subrange(0, 4) =~= bytes::be32(0x7467_5333));
    assert(b.subrange(5, 13) =~= bytes::be64(s.time_offset as u64));
    assert(b.subrange(13, 17) =~= bytes::be32(s.iap));
    assert(b.subrange(17, 273) =~= s.auth.key@);
    assert(b.subrange(273, 281) =~= bytes::be64(s.auth.id));
    assert(b.subrange(281, 289) =~= s.salt@);
}

// ---- the cache ------------------------------------------------------------------------------------

/// Every file of the cache begins with the same mark and version, and then says how much it holds.
pub proof fn files_of_the_cache_begin_alike(s: Seq<ChatView>, c: ChatView)
    ensures
        store_cache::enc_header() == bytes::be32(0x7467_4331) + seq![1u8],
        store_cache::enc_list(s).take(5) == store_cache::enc_header(),
        store_cache::enc_tail(c).take(5) == store_cache::enc_header(),
        store_cache::enc_list(s).subrange(5, 9) == bytes::be32(
            store_cache::stored_rows(s).len() as u32,
        ),
        store_cache::enc_tail(c).subrange(5, 9) == bytes::be32(c.oldest as u32),
        store_cache::enc_tail(c).subrange(9, 13) == bytes::be32(
            store_cache::stored_tail(c.messages).len() as u32,
        ),
{
    let l = store_cache::enc_list(s);
    let t = store_cache::enc_tail(c);
    assert(l.take(5) =~= store_cache::enc_header());
    assert(t.take(5) =~= store_cache::enc_header());
    assert(l.subrange(5, 9) =~= bytes::be32(store_cache::stored_rows(s).len() as u32));
    assert(t.subrange(5, 9) =~= bytes::be32(c.oldest as u32));
    assert(t.subrange(9, 13) =~= bytes::be32(store_cache::stored_tail(c.messages).len() as u32));
}

/// What is told apart by a byte: kinds of peers, states of messages and kinds of attachments.
pub proof fn kinds_are_written_as_bytes(p: PeerRef, m: MediaView)
    ensures
        store_cache::tag_of_kind(Kind::User) == 1,
        store_cache::tag_of_kind(Kind::Chat) == 2,
        store_cache::tag_of_kind(Kind::Channel) == 3,
        store_cache::tag_of_delivery(Delivery::Pending) == 1,
        store_cache::tag_of_delivery(Delivery::Sent) == 2,
        store_cache::tag_of_delivery(Delivery::Read) == 3,
        store_cache::tag_of_delivery(Delivery::Failed) == 4,
        store_cache::enc_peer(None)[0] == 0,
        store_cache::enc_peer(Some(p)).len() == 17,
        store_cache::enc_peer(Some(p))[0] == store_cache::tag_of_kind(p.kind),
        store_cache::enc_peer(Some(p)).subrange(1, 9) == bytes::be64(p.id as u64),
        store_cache::enc_peer(Some(p)).subrange(9, 17) == bytes::be64(p.access_hash as u64),
        store_cache::enc_media(None) == seq![0u8],
        store_cache::enc_media(Some(m))[0] == (match m {
            MediaView::Photo { .. } => 1u8,
            MediaView::Voice { .. } => 2,
            MediaView::Audio { .. } => 3,
            MediaView::File { .. } => 4,
            MediaView::Sticker { .. } => 5,
            MediaView::Unknown => 6,
        }),
{
    reveal(store_cache::enc_peer);
    reveal(store_cache::enc_file);
    reveal(store_cache::enc_media);
    let e = store_cache::enc_peer(Some(p));
    assert(e.subrange(1, 9) =~= bytes::be64(p.id as u64));
    assert(e.subrange(9, 17) =~= bytes::be64(p.access_hash as u64));
}

/// A file is written as its number, its key, its reference behind its length, and its data centre.
pub proof fn a_file_is_written_in_order(tag: u8, id: i64, key: i64, reference: Seq<u8>, dc: i32)
    requires
        reference.len() < 0x1_0000_0000,
    ensures
        ({
            let b = store_cache::enc_file(tag, id, key, reference, dc);
            let n = reference.len() as int;
            &&& b.len() == 25 + n
            &&& b[0] == tag
            &&& b.subrange(1, 9) == bytes::be64(id as u64)
            &&& b.subrange(9, 17) == bytes::be64(key as u64)
            &&& b.subrange(17, 21) == bytes::be32(n as u32)
            &&& b.subrange(21, 21 + n) == reference
            &&& b.subrange(21 + n, 25 + n) == bytes::be32(dc as u32)
        }),
{
    reveal(store_cache::enc_file);
    let b = store_cache::enc_file(tag, id, key, reference, dc);
    let n = reference.len() as int;
    assert(b.subrange(1, 9) =~= bytes::be64(id as u64));
    assert(b.subrange(9, 17) =~= bytes::be64(key as u64));
    assert(b.subrange(17, 21) =~= bytes::be32(n as u32));
    assert(b.subrange(21, 21 + n) =~= reference);
    assert(b.subrange(21 + n, 25 + n) =~= bytes::be32(dc as u32));
}

/// A message is written as its number, its text behind its length, whether it is one's own, its time,
/// its state and what it carries.
pub proof fn a_message_is_written_in_order(m: MessageView)
    requires
        encode_utf8(m.text).len() < 0x1_0000_0000,
        encode_utf8(m.time).len() < 0x1_0000_0000,
    ensures
        ({
            let b = store_cache::enc_message(m);
            let t = encode_utf8(m.text).len() as int;
            let w = encode_utf8(m.time).len() as int;
            &&& b.subrange(0, 4) == bytes::be32(m.id as u32)
            &&& b.subrange(4, 8) == bytes::be32(t as u32)
            &&& b.subrange(8, 8 + t) == encode_utf8(m.text)
            &&& b[8 + t] == (if m.outgoing {
                1u8
            } else {
                0
            })
            &&& b.subrange(9 + t, 13 + t) == bytes::be32(w as u32)
            &&& b.subrange(13 + t, 13 + t + w) == encode_utf8(m.time)
            &&& b[13 + t + w] == store_cache::tag_of_delivery(m.state)
            &&& b.skip(14 + t + w) == store_cache::enc_media(m.media)
        }),
{
    reveal(store_cache::enc_message);
    let b = store_cache::enc_message(m);
    let t = encode_utf8(m.text).len() as int;
    let w = encode_utf8(m.time).len() as int;
    assert(b.subrange(0, 4) =~= bytes::be32(m.id as u32));
    assert(b.subrange(4, 8) =~= bytes::be32(t as u32));
    assert(b.subrange(8, 8 + t) =~= encode_utf8(m.text));
    assert(b.subrange(9 + t, 13 + t) =~= bytes::be32(w as u32));
    assert(b.subrange(13 + t, 13 + t + w) =~= encode_utf8(m.time));
    assert(b.skip(14 + t + w) =~= store_cache::enc_media(m.media));
}

/// The rows that are written are the list's, in their order; and the messages the newest ones.
pub proof fn rows_and_messages_are_written_in_order(
    s: Seq<ChatView>,
    c: ChatView,
    m: Seq<MessageView>,
    x: MessageView,
)
    ensures
        store_cache::enc_rows(Seq::empty()).len() == 0,
        store_cache::enc_rows(s.push(c)) == store_cache::enc_rows(s) + store_cache::enc_row(c),
        store_cache::enc_messages(Seq::empty()).len() == 0,
        store_cache::enc_messages(m.push(x)) == store_cache::enc_messages(m)
            + store_cache::enc_message(x),
{
    assert(s.push(c).drop_last() =~= s);
    assert(m.push(x).drop_last() =~= m);
}

/// A conversation is written as its newest twenty messages, and a list as its first rows.
pub proof fn the_newest_messages_are_written(m: Seq<MessageView>, s: Seq<ChatView>, i: int)
    ensures
        m.len() <= 20 ==> store_cache::stored_tail(m) == m,
        m.len() > 20 ==> store_cache::stored_tail(m).len() == 20,
        m.len() > 20 && 0 <= i < 20 ==> store_cache::stored_tail(m)[i] == m[m.len() - 20 + i],
        s.len() <= 4096 ==> store_cache::stored_rows(s) == s,
        s.len() > 4096 ==> store_cache::stored_rows(s) == s.take(4096),
{
}

/// The file of a conversation is read where at most one message of it is held, and only for one that
/// is with somebody.
pub proof fn a_tail_is_read_where_it_is_missing(c: ChatView)
    ensures
        c.messages.len() > 1 || c.peer is None ==> cache_files::tail_wanted(c) is None,
        c.messages.len() <= 1 ==> (c.peer matches Some(p) ==> cache_files::tail_wanted(c) == Some(
            cache_files::tail_file(p),
        )),
{
}

/// What is read back: a truth is any byte but nought, a length may not say more than there is nor more
/// than a field may hold, a count may not say more than a file may hold, and a kind has to be one there
/// is.
pub proof fn what_is_read_is_held_to_its_bounds(b: Seq<u8>, at: int, n: u32)
    requires
        0 <= at,
        at + 4 <= b.len(),
        n == bytes::of_be32(b, at),
    ensures
        store_cache::p_bool(b, at) == Some((b[at] != 0, at + 1)),
        ({
            let r = store_cache::p_bytes(b, at, store_cache::MAX_FIELD as nat);
            &&& r is Some <==> n <= 8192 && at + 4 + n <= b.len()
            &&& r matches Some((s, e)) ==> e == at + 4 + n && s.len() == n && (forall|i: int|
                0 <= i < n ==> #[trigger] s[i] == b[at + 4 + i])
        }),
        store_cache::p_count(b, at) == (if n <= 4096 {
            Some((n as nat, at + 4))
        } else {
            None
        }),
        store_cache::kind_for_tag(1) == Some(Kind::User),
        store_cache::kind_for_tag(2) == Some(Kind::Chat),
        store_cache::kind_for_tag(3) == Some(Kind::Channel),
        forall|tag: u8| tag == 0 || tag > 3 ==> #[trigger] store_cache::kind_for_tag(tag) is None,
        store_cache::p_u8(b, b.len() as int) is None,
        store_cache::p_u32(b, b.len() - 3) is None,
        b.len() >= 7 ==> store_cache::p_i64(b, b.len() - 7) is None,
{
}

// ---- names in a listing ---------------------------------------------------------------------------

/// Some names with a nought between each two.
pub open spec fn joined(names: Seq<Seq<u16>>) -> Seq<u16>
    decreases names.len(),
{
    if names.len() == 0 {
        seq![]
    } else if names.len() == 1 {
        names[0]
    } else {
        joined(names.drop_last()).push(0) + names.last()
    }
}

/// A listing is split exactly at its noughts: the names joined again are the listing, and none of them
/// holds a nought.
pub proof fn a_listing_is_split_at_its_noughts(buf: Seq<u16>)
    ensures
        cache_files::split_names(buf).len() > 0,
        joined(cache_files::split_names(buf)) == buf,
        forall|i: int, k: int|
            0 <= i < cache_files::split_names(buf).len() && 0 <= k < cache_files::split_names(
                buf,
            )[i].len() ==> #[trigger] cache_files::split_names(buf)[i][k] != 0,
    decreases buf.len(),
{
    let all = cache_files::split_names(buf);
    if buf.len() == 0 {
        assert(all == seq![Seq::<u16>::empty()]);
        assert(joined(all) =~= buf);
    } else {
        let rest = cache_files::split_names(buf.drop_last());
        a_listing_is_split_at_its_noughts(buf.drop_last());
        if buf.last() == 0 {
            assert(all == rest.push(seq![]));
            assert(all.drop_last() =~= rest);
            assert(joined(all) =~= buf);
        } else {
            let last = rest.last().push(buf.last());
            assert(all == rest.drop_last().push(last));
            assert(all.drop_last() =~= rest.drop_last());
            if rest.len() == 1 {
                assert(joined(all) =~= buf);
            } else {
                let before = joined(rest.drop_last()).push(0);
                assert(joined(rest) == before + rest.last());
                assert(all.last() == last);
                assert(joined(all) == before + last);
                assert(buf =~= (before + rest.last()).push(buf.last()));
                assert(before + last =~= buf);
            }
            assert forall|i: int, k: int|
                0 <= i < all.len() && 0 <= k < all[i].len() implies #[trigger] all[i][k] != 0 by {
                if i < all.len() - 1 {
                    assert(all[i] == rest[i]);
                    assert(rest[i][k] != 0);
                } else if k < rest.last().len() {
                    assert(rest[rest.len() - 1][k] != 0);
                }
            }
        }
    }
}

/// Whether a name of a listing is of a file of the cache: plain characters, and a name the cache uses.
pub open spec fn is_ours(name: Seq<u16>) -> bool {
    &&& forall|i: int| 0 <= i < name.len() ==> 0 < #[trigger] name[i] <= 0x7f
    &&& cache_files::cache_name(Seq::new(name.len(), |i: int| name[i] as char))
}

/// What is deleted is exactly what is of the cache: each such name, as it is written, and no other.
pub proof fn what_is_deleted_is_of_the_cache(names: Seq<Seq<u16>>, k: int)
    ensures
        0 <= k < names.len() && is_ours(names[k]) ==> cache_files::doomed(names).contains(
            Seq::new(names[k].len(), |i: int| names[k][i] as char),
        ),
        0 <= k < cache_files::doomed(names).len() ==> exists|j: int|
            0 <= j < names.len() && is_ours(#[trigger] names[j]) && cache_files::doomed(names)[k]
                == Seq::new(names[j].len(), |i: int| names[j][i] as char),
    decreases names.len(),
{
    let all = cache_files::doomed(names);
    if names.len() > 0 {
        let rest = cache_files::doomed(names.drop_last());
        let n = names.last();
        let t = Seq::new(n.len(), |i: int| n[i] as char);
        assert(cache_files::name_text(n) =~= t);
        let taken = is_ours(n);
        assert(taken == (cache_files::plain(n) && cache_files::cache_name(
            cache_files::name_text(n),
        )));
        if taken {
            assert(all == rest.push(t));
            assert(all[all.len() - 1] == t);
        } else {
            assert(all == rest);
        }
        if 0 <= k < names.len() && is_ours(names[k]) {
            let u = Seq::new(names[k].len(), |i: int| names[k][i] as char);
            if k < names.len() - 1 {
                what_is_deleted_is_of_the_cache(names.drop_last(), k);
                assert(names.drop_last()[k] == names[k]);
                assert(rest.contains(u));
                let j = choose|j: int| 0 <= j < rest.len() && rest[j] == u;
                assert(all[j] == u);
            } else {
                assert(u =~= t);
            }
        }
        if 0 <= k < all.len() {
            if taken && k == all.len() - 1 {
                assert(is_ours(names[names.len() - 1]));
            } else {
                what_is_deleted_is_of_the_cache(names.drop_last(), k);
                let j = choose|j: int|
                    0 <= j < names.drop_last().len() && is_ours(#[trigger] names.drop_last()[j])
                        && rest[k] == Seq::new(
                        names.drop_last()[j].len(),
                        |i: int| names.drop_last()[j][i] as char,
                    );
                assert(names[j] == names.drop_last()[j]);
                assert(all[k] =~= Seq::new(names[j].len(), |i: int| names[j][i] as char));
            }
        }
    }
}

/// Whether a name, without the ending of one that is being written, is one the cache uses: that of the
/// list, or a long one for a conversation, a preview or a file.
pub open spec fn is_cache_name(base: Seq<char>) -> bool {
    ||| base == "chats.bin"@
    ||| {
        &&& base.len() >= 4
        &&& base[0] == 'c' || base[0] == 'p' || base[0] == 'm'
        &&& base.skip(base.len() - 4) == ".bin"@
        &&& encode_utf8(base).len() >= 18
    }
}

/// The names of the cache are told from others by how they begin and end and how long they are; one
/// that is being written has an ending of its own.
pub proof fn names_of_the_cache_are_told_apart(base: Seq<char>)
    ensures
        base.len() < 4 || base.skip(base.len() - 4) != ".tmp"@ ==> (cache_files::cache_name(base)
            <==> is_cache_name(base)),
        cache_files::cache_name(base + ".tmp"@) <==> is_cache_name(base),
{
    reveal_strlit(".tmp");
    reveal_strlit(".bin");
    let u = base + ".tmp"@;
    assert(u.skip(u.len() - 4) =~= ".tmp"@);
    assert(u.take(u.len() - 4) =~= base);
}

/// The file of a conversation is named after its peer: what kind of peer it is, and its number in
/// sixteen hexadecimal digits.
pub proof fn a_conversation_has_its_own_file(p: PeerRef)
    ensures
        ({
            let n = cache_files::tail_file(p);
            &&& n.len() == 22
            &&& n[0] == 'c'
            &&& n[1] as int == 48 + store_cache::tag_of_kind(p.kind)
            &&& n.subrange(2, 18) == text::hex_padded(p.id as u64, 16)
            &&& n.subrange(18, 22) == seq!['.', 'b', 'i', 'n']
        }),
{
    reveal_strlit(".bin");
    let n = cache_files::tail_file(p);
    assert(n.subrange(2, 18) =~= text::hex_padded(p.id as u64, 16));
    assert(n.subrange(18, 22) =~= seq!['.', 'b', 'i', 'n']);
}

// ---- the replay -----------------------------------------------------------------------------------

/// Two recordings part at the first byte in which they differ, or where one of them ends.
pub proof fn recordings_part_where_they_differ(a: Seq<u8>, b: Seq<u8>)
    ensures
        ({
            let n = selfcheck::parting(a, b) as int;
            &&& n <= a.len() && n <= b.len()
            &&& forall|i: int| 0 <= i < n ==> a[i] == b[i]
            &&& n < a.len() && n < b.len() ==> a[n] != b[n]
        }),
    decreases a.len(),
{
    if a.len() > 0 && b.len() > 0 && a[0] == b[0] {
        recordings_part_where_they_differ(a.skip(1), b.skip(1));
        let n = selfcheck::parting(a, b) as int;
        assert forall|i: int| 0 <= i < n implies a[i] == b[i] by {
            if i > 0 {
                assert(a.skip(1)[i - 1] == b.skip(1)[i - 1]);
            }
        }
        if n < a.len() && n < b.len() {
            assert(a.skip(1)[n - 1] == a[n]);
            assert(b.skip(1)[n - 1] == b[n]);
        }
    }
}

/// The parts of a recording follow its five lengths, one behind another, each as long as its length
/// says; a length has its least significant byte first.
pub proof fn the_parts_follow_one_another(blob: Seq<u8>, i: int)
    requires
        selfcheck::whole(blob),
        0 <= i < 5,
    ensures
        selfcheck::part_at(blob, 0) == 20,
        selfcheck::part(blob, i).len() == blob[4 * i] + 0x100 * blob[4 * i + 1] + 0x1_0000 * blob[4
            * i + 2] + 0x100_0000 * blob[4 * i + 3],
        selfcheck::part_at(blob, i + 1) == selfcheck::part_at(blob, i) + selfcheck::part(
            blob,
            i,
        ).len(),
        forall|k: int|
            0 <= k < selfcheck::part(blob, i).len() ==> #[trigger] selfcheck::part(blob, i)[k]
                == blob[selfcheck::part_at(blob, i) + k],
{
    reveal_with_fuel(selfcheck::part_at, 7);
    assert(selfcheck::part_at(blob, i + 1) <= selfcheck::part_at(blob, 5));
}

/// A replay is judged step by step: the first step that differs is named, and says how it differs.
pub proof fn a_replay_is_judged_step_by_step(blob: Seq<u8>, r: Replay)
    requires
        selfcheck::whole(blob),
    ensures
        ({
            let v = selfcheck::verdict(blob, r);
            &&& r.start matches selfcheck::Step::Sent(out) ==> (out@ != selfcheck::part(blob, 3) ==> v
                == selfcheck::OutcomeView::Failed(
                "step1",
                selfcheck::difference("req_pq_multi"@, out@, selfcheck::part(blob, 3)),
            ))
            &&& !(r.start is Sent) ==> v == selfcheck::OutcomeView::Failed(
                "step1",
                "start did not send"@,
            )
            &&& r.start matches selfcheck::Step::Sent(out) ==> (out@ == selfcheck::part(blob, 3) ==> {
                &&& r.on_res_pq matches Err(e) ==> v == selfcheck::OutcomeView::Failed(
                    "step2",
                    selfcheck::error_name(e),
                )
                &&& r.on_res_pq matches Ok(s) ==> (!(s is Sent) ==> v
                    == selfcheck::OutcomeView::Failed("step2", "did not send req_DH_params"@))
                &&& r.on_res_pq matches Ok(selfcheck::Step::Sent(next)) ==> (next@
                    != selfcheck::part(blob, 4) ==> v == selfcheck::OutcomeView::Failed(
                    "step2",
                    selfcheck::difference("req_DH_params"@, next@, selfcheck::part(blob, 4)),
                ))
                &&& r.on_res_pq matches Ok(selfcheck::Step::Sent(next)) ==> (next@
                    == selfcheck::part(blob, 4) ==> {
                    &&& r.on_dh_params matches Err(e) ==> v == selfcheck::OutcomeView::Failed(
                        "step3",
                        selfcheck::error_name(e),
                    )
                    &&& r.on_dh_params matches Ok(s) ==> (!(s is ModPow) ==> v
                        == selfcheck::OutcomeView::Failed("step3", "did not ask for a modpow"@))
                    &&& r.on_dh_params matches Ok(selfcheck::Step::ModPow { base, modulus }) ==> {
                        let right = base@ == seq![3u8] && modulus@.len() == 256;
                        &&& !right ==> v == selfcheck::OutcomeView::Failed(
                            "step3",
                            "wrong DH parameters"@,
                        )
                        &&& right && r.exhausted ==> v == selfcheck::OutcomeView::Failed(
                            "tape",
                            "ran out of recorded randomness"@,
                        )
                        &&& right && !r.exhausted ==> v is Passed
                    }
                })
            })
        }),
{
}

/// A difference says what differs, where, and up to eight bytes of either side from there.
pub proof fn a_difference_says_where(what: Seq<char>, got: Seq<u8>, want: Seq<u8>)
    ensures
        ({
            let at = selfcheck::parting(got, want);
            selfcheck::difference(what, got, want) == what + " differs at "@ + text::decimal(at)
                + ", got "@ + text::hex_of(
                if got.len() - at > 8 {
                    got.subrange(at as int, (at + 8) as int)
                } else {
                    got.skip(at as int)
                },
            ) + " want "@ + text::hex_of(
                if want.len() - at > 8 {
                    want.subrange(at as int, (at + 8) as int)
                } else {
                    want.skip(at as int)
                },
            )
        }),
{
    recordings_part_where_they_differ(got, want);
    let at = selfcheck::parting(got, want) as int;
    if got.len() - at > 8 {
        assert(got.skip(at).take(8) =~= got.subrange(at, at + 8));
    }
    if want.len() - at > 8 {
        assert(want.skip(at).take(8) =~= want.subrange(at, at + 8));
    }
}

/// A recording is whole where it holds its five lengths and as many bytes as they say.
pub proof fn a_recording_is_whole_where_its_parts_are_there(blob: Seq<u8>)
    ensures
        selfcheck::whole(blob) <==> blob.len() >= 20 && 20 + selfcheck::part_len(blob, 0)
            + selfcheck::part_len(blob, 1) + selfcheck::part_len(blob, 2) + selfcheck::part_len(
            blob,
            3,
        ) + selfcheck::part_len(blob, 4) <= blob.len(),
{
    reveal_with_fuel(selfcheck::part_at, 7);
}

/// What is drawn from a tape is what was recorded next, as long as that much was; and nought beyond.
pub proof fn a_tape_gives_what_was_recorded(t: Tape, n: nat, i: int)
    requires
        0 <= i < n,
    ensures
        t.drawn(n).len() == n,
        t.pos + n <= t.bytes@.len() ==> t.holds(n) && t.drawn(n)[i] == t.bytes@[t.pos + i],
        t.pos + n > t.bytes@.len() ==> !t.holds(n) && t.drawn(n)[i] == 0,
{
}

/// Bytes in hexadecimal are two digits each, in their order.
pub proof fn bytes_are_two_digits_each(b: Seq<u8>, x: u8)
    ensures
        text::hex_of(Seq::empty()).len() == 0,
        text::hex_of(b.push(x)) == text::hex_of(b) + seq![
            text::hex_digit((x / 16) as u64),
            text::hex_digit((x % 16) as u64),
        ],
{
    assert(b.push(x).drop_last() =~= b);
    assert((x as u64 >> 4u64) & 15 == (x / 16) as u64 && (x as u64 >> 0u64) & 15 == (x % 16) as u64)
        by (bit_vector);
    assert(text::hex_padded(x as u64, 2) =~= seq![
        text::hex_digit((x / 16) as u64),
        text::hex_digit((x % 16) as u64),
    ]);
}

// ---- errors ---------------------------------------------------------------------------------------

/// What a link notes of an error that it could not read: which mark it met, and which it wanted. A
/// refusal of the server is noted by its code.
pub proof fn an_error_is_noted_with_its_numbers(s: LinkView, c: u32, want: u32, got: u32, code: i32)
    requires
        s.notes.len() + 2 <= link::MAX_NOTES,
    ensures
        link::error_noted(
            s,
            ClientError::Rpc(Some(TlError::UnknownConstructor(c))),
        ).notes == s.notes.push(("tl: unknown ctor", NoteView::Num(c as int))),
        link::error_noted(
            s,
            ClientError::Handshake(HandshakeError::Tl(TlError::UnknownConstructor(c))),
        ).notes == s.notes.push(("tl: unknown ctor", NoteView::Num(c as int))),
        link::error_noted(
            s,
            ClientError::Rpc(Some(TlError::Unexpected { want, got })),
        ).notes == s.notes.push(("tl: wanted ctor", NoteView::Num(want as int))).push(
            ("tl: got ctor", NoteView::Num(got as int)),
        ),
        link::error_noted(s, ClientError::Server(code)).notes == s.notes.push(
            ("transport error", NoteView::Num(code as int)),
        ),
        link::error_noted(s, ClientError::Session).notes == s.notes,
        link::error_noted(s, ClientError::NotReady).notes == s.notes,
{
}

/// What went wrong with a handshake is said as what it is.
pub proof fn a_failed_handshake_says_why(t: TlError)
    ensures
        link::described(ClientError::Handshake(HandshakeError::NonceMismatch))@
            == "handshake: nonce não confere"@,
        link::described(ClientError::Handshake(HandshakeError::KeyMismatch))@
            == "handshake: as chaves não batem"@,
        link::described(ClientError::Handshake(HandshakeError::OutOfOrder))@
            == "handshake: resposta fora de ordem"@,
        link::described(ClientError::Handshake(HandshakeError::NotFactorable))@
            == "handshake: não fatorei o pq"@,
        link::described(ClientError::Handshake(HandshakeError::NoUsableKey))@
            == "handshake: nenhuma chave RSA nossa"@,
        link::described(ClientError::Handshake(HandshakeError::ServerRejected))@
            == "handshake: servidor recusou os dados"@,
        link::described(ClientError::Handshake(HandshakeError::UnknownDhPrime))@
            == "handshake: primo DH desconhecido"@,
        link::described(ClientError::Handshake(HandshakeError::BadDhParams))@
            == "handshake: parâmetros DH inválidos"@,
        link::described(ClientError::Handshake(HandshakeError::DhGenFailed))@
            == "handshake: geração da chave falhou"@,
        link::described(ClientError::Handshake(HandshakeError::Crypto))@
            == "handshake: falha de cripto"@,
        link::described(ClientError::Handshake(HandshakeError::Tl(t)))@ == "handshake: TL ilegível"@,
{
}

/// What went wrong with a connection is said as what it is. Only one code means that the server has
/// forgotten the key.
pub proof fn a_failed_connection_says_why(t: Option<TlError>, code: i32)
    ensures
        link::described(ClientError::Transport)@ == "erro de enquadramento"@,
        link::described(ClientError::Session)@ == "não consegui decifrar"@,
        link::described(ClientError::Rpc(t))@ == "resposta ilegível"@,
        link::described(ClientError::NotReady)@ == "ainda não conectado"@,
        code + 404 == 0 ==> link::described(ClientError::Server(code))@
            == "o servidor esqueceu a chave"@,
        code + 404 != 0 ==> link::described(ClientError::Server(code))@ == "o servidor recusou"@,
{
}

/// An error of the login is logged under the name the server has for it.
pub proof fn a_login_error_is_logged_by_its_name(n: u32, s: String)
    ensures
        driver::label_of(AuthError::PhoneNumberInvalid)@ == "PHONE_NUMBER_INVALID"@,
        driver::label_of(AuthError::PhoneCodeInvalid)@ == "PHONE_CODE_INVALID"@,
        driver::label_of(AuthError::PhoneCodeExpired)@ == "PHONE_CODE_EXPIRED"@,
        driver::label_of(AuthError::PasswordInvalid)@ == "PASSWORD_HASH_INVALID"@,
        driver::label_of(AuthError::FloodWait(n))@ == "FLOOD_WAIT"@,
        driver::label_of(AuthError::SignUpRequired)@ == "SIGNUP_REQUIRED"@,
        driver::label_of(AuthError::ApiIdInvalid)@ == "API_ID_INVALID"@,
        driver::label_of(AuthError::Other(s))@ == "other"@,
{
}

/// A step of the replay that refuses a reply says why, with the marks it met.
pub proof fn a_refused_reply_says_why(c: u32, want: u32, got: u32)
    ensures
        selfcheck::error_name(HandshakeError::Tl(TlError::UnknownConstructor(c)))
            == "tl unknown ctor "@ + text::hex_padded(c as u64, 8),
        selfcheck::error_name(HandshakeError::Tl(TlError::Unexpected { want, got }))
            == "tl wanted "@ + text::hex_padded(want as u64, 8) + " got "@ + text::hex_padded(
            got as u64,
            8,
        ),
        selfcheck::error_name(HandshakeError::Tl(TlError::Truncated)) == "tl truncated"@,
        selfcheck::error_name(HandshakeError::Tl(TlError::BadLength)) == "tl bad length"@,
        selfcheck::error_name(HandshakeError::OutOfOrder) == "out of order"@,
        selfcheck::error_name(HandshakeError::NonceMismatch) == "nonce mismatch"@,
        selfcheck::error_name(HandshakeError::NotFactorable) == "pq not factorable"@,
        selfcheck::error_name(HandshakeError::NoUsableKey) == "no usable RSA key"@,
        selfcheck::error_name(HandshakeError::ServerRejected) == "server rejected"@,
        selfcheck::error_name(HandshakeError::UnknownDhPrime) == "unknown dh prime"@,
        selfcheck::error_name(HandshakeError::BadDhParams) == "bad dh params"@,
        selfcheck::error_name(HandshakeError::DhGenFailed) == "dh gen failed"@,
        selfcheck::error_name(HandshakeError::KeyMismatch) == "key mismatch"@,
{
}

// ---- sizes and times ------------------------------------------------------------------------------

/// The sizes and times this client lives by hold together: a download is at most eight chunks of
/// 128 KB, a conversation five pages of twenty, the list ten, and what is kept of a conversation on
/// disk is one page. A reply is waited for ten seconds and a chunk for a minute.
pub proof fn sizes_and_times_hold_together()
    ensures
        app::CHUNK == 128 * 1024,
        app::MAX_FILE_BYTES == 8 * app::CHUNK,
        app::DECODE_TIMEOUT_MS == 8 * 1000,
        driver::HISTORY_PAGE == 20,
        driver::DIALOG_PAGE == 20,
        pages::CHAT_WINDOW == 5 * driver::HISTORY_PAGE,
        pages::DIALOG_LIMIT == 10 * driver::DIALOG_PAGE,
        store_cache::DISK_TAIL == driver::HISTORY_PAGE,
        pages::SCREEN_W == 320,
        pages::SCREEN_H == 240,
        driver::REPLY_TIMEOUT_MS == 10 * 1000,
        driver::FILE_TIMEOUT_MS == 60 * 1000,
        driver::RECONNECT_DELAY_MS == 2 * 1000,
        driver::CONNECT_DELAY_MS == 150,
        driver::MAX_RETRIES == 3,
        link::MAX_RESENDS == 3,
        link::MAX_NOTES == 20,
        link::DEFAULT_DC == 2,
        link::DC_PORT == 443,
        cache_files::WIPE_ROUNDS == 64,
        session_store::LEN == 4 + 1 + 8 + 4 + 256 + 8 + 8,
{
}

} // verus!
