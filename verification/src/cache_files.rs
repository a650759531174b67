//! Which files the cache keeps, and what goes through them.
//!
//! Everything lies flat in the application's private directory: `chats.bin` for the list and one
//! file per conversation. Whoever owns the file system reads and writes; what is read or written,
//! and under which name, is decided here.

use crate::model;
use crate::model::{Chat, ChatView, PeerRef, Store};
use crate::proto;
use crate::store_cache;
use crate::store_cache::{decode_list, decode_tail, encode_list, encode_tail};
use crate::text;
use crate::text::{ends_with, push_hex, same, string_of};
use vstd::prelude::*;
use vstd::string::*;
use vstd::utf8;

verus! {

/// A file to be replaced, atomically, in the private directory. That it fails is nobody's loss:
/// what it holds is already on screen.
#[derive(Debug, PartialEq, Eq)]
pub struct FileWrite {
    pub name: String,
    pub bytes: Vec<u8>,
}

/// The file the chat list goes in.
pub fn list_name() -> (r: &'static str)
    ensures
        r@ == "chats.bin"@,
{
    "chats.bin"
}

/// The name of a conversation's file: `c`, the kind of peer, sixteen hexadecimal digits, `.bin`.
///
/// The kind is in the name because a user and a group can share an id, and the id is unsigned so
/// that no name starts with a sign.
pub open spec fn tail_file(peer: PeerRef) -> Seq<char> {
    seq!['c', text::digit(store_cache::tag_of_kind(peer.kind) as nat)] + text::hex_padded(
        peer.id as u64,
        16,
    ) + ".bin"@
}

/// The name of a conversation's file.
pub fn tail_name(peer: PeerRef) -> (r: String)
    ensures
        r@ == tail_file(peer),
{
    let mut s = String::new();
    s.push('c');
    let tag: u8 = match peer.kind {
        proto::Kind::User => 1,
        proto::Kind::Chat => 2,
        proto::Kind::Channel => 3,
    };
    s.push(text::digit_char(tag));
    assert(s@ =~= seq!['c', text::digit(store_cache::tag_of_kind(peer.kind) as nat)]);
    push_hex(&mut s, peer.id as u64, 16);
    s.append(".bin");
    s
}

/// The contents of a file that may be missing.
pub open spec fn file_opt(f: Option<&[u8]>) -> Option<Seq<u8>> {
    match f {
        Some(b) => Some(b@),
        None => None,
    }
}

/// The list a file brings back: nothing where the file is missing or unreadable.
pub open spec fn loaded_list(file: Option<Seq<u8>>) -> Option<Seq<ChatView>> {
    match file {
        Some(b) => store_cache::decoded_list(b),
        None => None,
    }
}

/// The chat list from the last launch, from what its file held.
pub fn load_list(file: Option<&[u8]>) -> (r: Option<Vec<Chat>>)
    ensures
        (match r {
            Some(chats) => loaded_list(file_opt(file)) == Some(model::chat_views(chats@)),
            None => loaded_list(file_opt(file)) is None,
        }),
{
    match file {
        Some(b) => decode_list(b),
        None => None,
    }
}

/// The chat list as the file to write.
pub fn save_list(store: &Store) -> (r: FileWrite)
    ensures
        r.name@ == "chats.bin"@,
        r.bytes@ == store_cache::enc_list(store@.chats),
{
    FileWrite { name: list_name().to_owned(), bytes: encode_list(store) }
}

/// The file a chat would be refilled from. `None` when it holds a conversation already or belongs
/// to nobody.
pub open spec fn tail_wanted(c: ChatView) -> Option<Seq<char>> {
    if c.messages.len() > 1 {
        None
    } else {
        match c.peer {
            Some(p) => Some(tail_file(p)),
            None => None,
        }
    }
}

/// Which file to read before [`load_tail`], if any.
pub fn tail_to_load(chat: &Chat) -> (r: Option<String>)
    ensures
        proto::text_opt(r) == tail_wanted(chat@),
{
    if chat.messages.len() > 1 {
        return None;
    }
    match chat.peer {
        Some(p) => Some(tail_name(p)),
        None => None,
    }
}

/// Whether a file refills a chat: the chat holds no conversation yet, and the file one.
pub open spec fn refills(c: ChatView, file: Option<Seq<u8>>) -> bool {
    &&& tail_wanted(c) is Some
    &&& file matches Some(b) && store_cache::decoded_tail(b) matches Some(t) && t.0.len() > 0
}

/// A chat refilled from a file, where the file refills it.
pub open spec fn refilled(c: ChatView, file: Option<Seq<u8>>) -> ChatView {
    if refills(c, file) {
        let t = store_cache::decoded_tail(file->0)->0;
        ChatView { messages: t.0, oldest: t.1, ..c }
    } else {
        c
    }
}

/// Restore a conversation's tail from what its file held. Returns whether anything was.
///
/// Messages already in memory are never replaced: what is on disk is older than a live reply.
pub fn load_tail(chat: &mut Chat, file: Option<&[u8]>) -> (r: bool)
    ensures
        r == refills(old(chat)@, file_opt(file)),
        final(chat)@ == refilled(old(chat)@, file_opt(file)),
{
    let ghost before = chat@;
    if chat.messages.len() > 1 || chat.peer.is_none() {
        return false;
    }
    let b = match file {
        Some(b) => b,
        None => {
            return false;
        },
    };
    match decode_tail(b) {
        Some((messages, oldest)) => {
            if messages.len() == 0 {
                return false;
            }
            chat.oldest = oldest;
            chat.messages = messages;
            assert(chat@ =~= refilled(before, file_opt(file)));
            true
        },
        None => false,
    }
}

/// A conversation's tail as the file to write. Nothing for a chat that is empty or belongs to
/// nobody.
pub fn save_tail(chat: &Chat) -> (r: Option<FileWrite>)
    ensures
        (match r {
            Some(f) => chat@.messages.len() > 0 && chat@.peer is Some && f.name@ == tail_file(
                chat@.peer->0,
            ) && f.bytes@ == store_cache::enc_tail(chat@),
            None => chat@.messages.len() == 0 || chat@.peer is None,
        }),
{
    if chat.messages.len() == 0 {
        return None;
    }
    match chat.peer {
        Some(p) => Some(FileWrite { name: tail_name(p), bytes: encode_tail(chat) }),
        None => None,
    }
}

// ---- forgetting -----------------------------------------------------------------------------------

/// A name without the ending of an unfinished write.
pub open spec fn base_name(name: Seq<char>) -> Seq<char> {
    if text::has_suffix(name, ".tmp"@) {
        name.take(name.len() - ".tmp"@.len())
    } else {
        name
    }
}

/// Whether a file in the private directory is this cache's to delete: the list, or a conversation,
/// preview or download by its first letter, its ending and its length.
pub open spec fn cache_name(name: Seq<char>) -> bool {
    let base = base_name(name);
    ||| base == "chats.bin"@
    ||| (base.len() > 0 && (base[0] == 'c' || base[0] == 'p' || base[0] == 'm') && text::has_suffix(
        base,
        ".bin"@,
    ) && utf8::encode_utf8(base).len() >= 18)
}

/// Whether a file in the private directory is this cache's to delete.
///
/// Narrow on purpose: the session and the access point live in the same directory and belong to
/// other code. An unfinished write counts too, since it holds the same messages.
pub fn is_cache_name(name: &str) -> (r: bool)
    ensures
        r == cache_name(name@),
{
    let mut v = text::chars_of(name);
    if ends_with(name, ".tmp") {
        proof {
            reveal_strlit(".tmp");
        }
        let keep: usize = v.len() - 4;
        v.truncate(keep);
        assert(v@ =~= base_name(name@));
    }
    let base = string_of(&v);
    if same(base.as_str(), list_name()) {
        return true;
    }
    if v.len() == 0 {
        return false;
    }
    let ours: bool = v[0] == 'c' || v[0] == 'p' || v[0] == 'm';
    ours && ends_with(base.as_str(), ".bin") && base.as_str().as_bytes().len() >= 18
}

/// How often a directory is listed before a wipe gives up.
pub const WIPE_ROUNDS: u32 = 64;

/// The names in a listing: runs of units with a zero between each.
pub open spec fn split_names(buf: Seq<u16>) -> Seq<Seq<u16>>
    decreases buf.len(),
{
    if buf.len() == 0 {
        seq![seq![]]
    } else {
        let rest = split_names(buf.drop_last());
        if buf.last() == 0 {
            rest.push(seq![])
        } else {
            rest.drop_last().push(rest.last().push(buf.last()))
        }
    }
}

/// Whether every unit of a name is a plain character.
pub open spec fn plain(units: Seq<u16>) -> bool {
    forall|i: int| 0 <= i < units.len() ==> 0 < #[trigger] units[i] <= 0x7f
}

/// A plain name as text.
pub open spec fn name_text(units: Seq<u16>) -> Seq<char> {
    Seq::new(units.len(), |i: int| units[i] as char)
}

/// The names of a listing that are the cache's, in order.
pub open spec fn doomed(names: Seq<Seq<u16>>) -> Seq<Seq<char>>
    decreases names.len(),
{
    if names.len() == 0 {
        seq![]
    } else {
        let rest = doomed(names.drop_last());
        let n = names.last();
        if plain(n) && cache_name(name_text(n)) {
            rest.push(name_text(n))
        } else {
            rest
        }
    }
}

/// The first names of a listing, as many as it says it holds.
pub open spec fn listed_names(buf: Seq<u16>, n: nat) -> Seq<Seq<u16>> {
    let all = split_names(buf);
    if n < all.len() {
        all.take(n as int)
    } else {
        all
    }
}

/// The text of some strings, in order.
pub open spec fn texts(s: Seq<String>) -> Seq<Seq<char>> {
    Seq::new(s.len(), |i: int| s[i]@)
}

/// The contents of some vectors of units, in order.
pub open spec fn unit_views(s: Seq<Vec<u16>>) -> Seq<Seq<u16>> {
    Seq::new(s.len(), |i: int| s[i]@)
}

proof fn lemma_some_name(buf: Seq<u16>)
    ensures
        split_names(buf).len() >= 1,
    decreases buf.len(),
{
    if buf.len() > 0 {
        lemma_some_name(buf.drop_last());
    }
}

fn names_in(buf: &[u16]) -> (r: Vec<Vec<u16>>)
    ensures
        unit_views(r@) == split_names(buf@),
{
    let mut done: Vec<Vec<u16>> = Vec::new();
    let mut now: Vec<u16> = Vec::new();
    let mut i: usize = 0;
    let ghost b = buf@;
    assert(unit_views(done@).push(now@) =~= split_names(b.take(0)));
    while i < buf.len()
        invariant
            i <= buf@.len(),
            b == buf@,
            unit_views(done@).push(now@) =~= split_names(b.take(i as int)),
        decreases buf@.len() - i,
    {
        let ghost sofar = split_names(b.take(i as int));
        let ghost held = done@;
        let ghost piece = now@;
        assert(b.take(i + 1).drop_last() =~= b.take(i as int));
        assert(sofar.drop_last() =~= unit_views(held));
        assert(sofar.last() == piece);
        if buf[i] == 0 {
            let mut full: Vec<u16> = Vec::new();
            std::mem::swap(&mut full, &mut now);
            done.push(full);
            assert(unit_views(done@) =~= unit_views(held).push(piece));
        } else {
            now.push(buf[i]);
        }
        i += 1;
    }
    assert(b.take(b.len() as int) =~= b);
    let ghost held = done@;
    done.push(now);
    assert(unit_views(done@) =~= unit_views(held).push(now@));
    done
}

fn plain_name(units: &Vec<u16>) -> (r: Option<String>)
    ensures
        (match r {
            Some(s) => plain(units@) && s@ == name_text(units@),
            None => !plain(units@),
        }),
{
    let mut s = String::new();
    let mut i: usize = 0;
    assert(s@ =~= name_text(units@.take(0)));
    while i < units.len()
        invariant
            i <= units@.len(),
            s@ =~= name_text(units@.take(i as int)),
            forall|j: int| 0 <= j < i ==> 0 < #[trigger] units@[j] <= 0x7f,
        decreases units@.len() - i,
    {
        let u: u16 = units[i];
        if u == 0 || u > 0x7f {
            return None;
        }
        s.push((u as u8) as char);
        i += 1;
        assert(name_text(units@.take(i as int)) =~= name_text(units@.take(i - 1)).push(
            units@[i - 1] as char,
        ));
    }
    assert(units@.take(units@.len() as int) =~= units@);
    Some(s)
}

/// The cache's files in one listing of the directory, which says how many names it holds.
///
/// Driven by the directory rather than by the chat list: a conversation that dropped off the list
/// still has a file. Names that are not plain characters are not the cache's and are left alone.
pub fn clear(buf: &[u16], n: usize) -> (r: Vec<String>)
    ensures
        texts(r@) == doomed(listed_names(buf@, n as nat)),
{
    let names = names_in(buf);
    let count: usize = if n < names.len() {
        n
    } else {
        names.len()
    };
    let ghost all = listed_names(buf@, n as nat);
    proof {
        lemma_some_name(buf@);
    }
    assert(all =~= unit_views(names@).take(count as int));
    let mut out: Vec<String> = Vec::new();
    let mut i: usize = 0;
    assert(texts(out@) =~= doomed(all.take(0)));
    while i < count
        invariant
            i <= count <= names@.len(),
            all == unit_views(names@).take(count as int),
            texts(out@) =~= doomed(all.take(i as int)),
        decreases count - i,
    {
        assert(all.take(i + 1).drop_last() =~= all.take(i as int));
        assert(all[i as int] == names@[i as int]@);
        if let Some(name) = plain_name(&names[i]) {
            if is_cache_name(name.as_str()) {
                let ghost held = out@;
                out.push(name);
                assert(texts(out@) =~= texts(held).push(name@));
            }
        }
        i += 1;
    }
    assert(all.take(all.len() as int) =~= all);
    out
}

/// Whether the directory is listed once more after a round of a wipe.
///
/// One listing holds a bounded number of names, so a large directory drains over several rounds.
/// A round that removed nothing ends it, and so does the last one allowed.
pub fn wipe_goes_on(rounds_done: u32, removed: usize) -> (r: bool)
    ensures
        r == (removed > 0 && rounds_done < WIPE_ROUNDS),
{
    removed > 0 && rounds_done < WIPE_ROUNDS
}

// ---- what holds of the files ----------------------------------------------------------------------

/// Two conversations share a file only if they are with the same peer: a user and a group with one
/// id do not.
pub proof fn conversations_do_not_share_a_file(a: PeerRef, b: PeerRef)
    requires
        tail_file(a) == tail_file(b),
    ensures
        a.kind == b.kind,
        a.id == b.id,
{
    reveal_strlit(".bin");
    let (x, y) = (tail_file(a), tail_file(b));
    assert(x[1] == text::digit(store_cache::tag_of_kind(a.kind) as nat));
    assert(y[1] == text::digit(store_cache::tag_of_kind(b.kind) as nat));
    assert(x.subrange(2, 18) =~= text::hex_padded(a.id as u64, 16));
    assert(y.subrange(2, 18) =~= text::hex_padded(b.id as u64, 16));
    text::hex_padded_is_injective(a.id as u64, b.id as u64);
    crate::bytes::signed64_round_trip(a.id);
    crate::bytes::signed64_round_trip(b.id);
}

/// Everything the cache writes is the cache's to delete, finished or not: nothing of an account
/// outlives a wipe.
pub proof fn a_wipe_takes_what_the_cache_wrote(peer: PeerRef)
    ensures
        cache_name("chats.bin"@),
        cache_name("chats.bin"@ + ".tmp"@),
        cache_name(tail_file(peer)),
        cache_name(tail_file(peer) + ".tmp"@),
{
    reveal_strlit("chats.bin");
    reveal_strlit(".tmp");
    reveal_strlit(".bin");
    let t = tail_file(peer);
    assert(t.skip(t.len() - 4) =~= ".bin"@);
    lemma_encoded_is_no_shorter(t);
    assert(t[t.len() - 1] == 'n');
    assert(t.skip(t.len() - 4)[3] == 'n');
    assert(".tmp"@[3] == 'p');
    let u = t + ".tmp"@;
    assert(u.skip(u.len() - 4) =~= ".tmp"@);
    assert(u.take(u.len() - 4) =~= t);
    let c = "chats.bin"@;
    assert(c.skip(c.len() - 4)[3] == 'n');
    let d = c + ".tmp"@;
    assert(d.skip(d.len() - 4) =~= ".tmp"@);
    assert(d.take(d.len() - 4) =~= c);
}

/// A text takes at least one byte for each character.
proof fn lemma_encoded_is_no_shorter(s: Seq<char>)
    ensures
        utf8::encode_utf8(s).len() >= s.len(),
    decreases s.len(),
{
    reveal_with_fuel(utf8::encode_utf8, 2);
    if s.len() > 0 {
        lemma_encoded_is_no_shorter(s.drop_first());
    }
}

/// The session and the access point are not the cache's, finished or not.
pub proof fn a_wipe_leaves_what_other_code_wrote()
    ensures
        !cache_name("session.bin"@),
        !cache_name("iap.bin"@),
        !cache_name("session.bin"@ + ".tmp"@),
        !cache_name("iap.bin"@ + ".tmp"@),
{
    reveal_strlit("session.bin");
    reveal_strlit("iap.bin");
    reveal_strlit("chats.bin");
    reveal_strlit(".tmp");
    let a = "session.bin"@;
    let b = "iap.bin"@;
    assert(a.skip(a.len() - 4)[3] == 'n');
    assert(b.skip(b.len() - 4)[3] == 'n');
    let c = a + ".tmp"@;
    let d = b + ".tmp"@;
    assert(c.skip(c.len() - 4) =~= ".tmp"@);
    assert(d.skip(d.len() - 4) =~= ".tmp"@);
    assert(c.take(c.len() - 4) =~= a);
    assert(d.take(d.len() - 4) =~= b);
    assert(a[0] == 's' && b[0] == 'i');
    assert("chats.bin"@[0] == 'c');
}

/// A tail that was saved refills the conversation it was saved from, once that holds nothing more
/// than a preview: the newest messages as they come back, and the cursor.
pub proof fn a_saved_tail_refills_its_conversation(saved: ChatView, later: ChatView)
    requires
        saved.messages.len() > 0,
        saved.peer is Some,
        later.peer == saved.peer,
        later.messages.len() <= 1,
        forall|i: int|
            0 <= i < saved.messages.len() && saved.messages.len() - store_cache::DISK_TAIL <= i
                ==> crate::cache_laws::message_fits(
                #[trigger] saved.messages[i],
                store_cache::MAX_FIELD as nat,
            ),
    ensures
        tail_wanted(later) == Some(tail_file(saved.peer->0)),
        refills(later, Some(store_cache::enc_tail(saved))),
        refilled(later, Some(store_cache::enc_tail(saved))).messages
            == crate::cache_laws::restored_messages(store_cache::stored_tail(saved.messages)),
        refilled(later, Some(store_cache::enc_tail(saved))).oldest == saved.oldest,
{
    crate::cache_laws::a_tail_survives_a_round_trip(saved);
}

/// A conversation already in memory is never replaced by what is on disk.
pub proof fn a_tail_never_replaces_a_conversation(c: ChatView, file: Option<Seq<u8>>)
    requires
        c.messages.len() > 1,
    ensures
        !refills(c, file),
        refilled(c, file) == c,
{
}

} // verus!
