//! Staying logged in.
//!
//! Being signed in is a property the server attaches to an auth key: keep the key and the account
//! is still there. The whole of persistence is one record of fixed width in the private directory,
//! with no parser that could half-load it.

use crate::bytes;
use crate::bytes::{get_be32, get_be64, push_be32, push_be64};
use crate::cache_files::FileWrite;
use crate::text;
use crate::text::starts_with;
use vstd::prelude::*;
use vstd::string::*;

verus! {

broadcast use {bytes::be32_len, bytes::be64_len};

/// Says the bytes are a record of this layout.
pub const MAGIC: u32 = 0x7467_5333;

/// The width of a record: magic, data centre, clock offset, access point, key, key id, salt.
pub const LEN: usize = 289;

/// The key of an account, as a handshake left it.
#[derive(Clone, Copy, PartialEq, Eq)]
pub struct AuthKey {
    pub key: [u8; 256],
    pub id: u64,
    pub salt: [u8; 8],
    /// The server's clock at the handshake, zero for a key that was read back.
    pub server_time: i32,
}

/// A stored session.
#[derive(Clone, Copy, PartialEq, Eq)]
pub struct Stored {
    /// The data centre the key belongs to. Against another it is worth nothing.
    pub dc: u8,
    pub auth: AuthKey,
    /// The last salt seen.
    pub salt: [u8; 8],
    /// How far the handset's clock is from the server's.
    pub time_offset: i64,
    /// The access point the phone settled on, zero when unknown.
    pub iap: u32,
}

/// Why a stored session is thrown away.
#[derive(Clone, Copy, Debug, PartialEq, Eq, Structural)]
pub enum Invalidate {
    /// The transport said the key is unknown.
    UnknownKey,
    /// The same, said inside a session.
    Unregistered,
    /// The user ended the session from another device.
    Revoked,
    /// The user asked to log out.
    LoggedOut,
}

/// What an error of a request means for the stored key. Matched by how it begins, because detail
/// is appended to some of them.
pub open spec fn invalidates(error: Seq<char>) -> Option<Invalidate> {
    if text::has_prefix(error, "AUTH_KEY_UNREGISTERED"@) || text::has_prefix(
        error,
        "AUTH_KEY_INVALID"@,
    ) {
        Some(Invalidate::Unregistered)
    } else if text::has_prefix(error, "SESSION_REVOKED"@) || text::has_prefix(
        error,
        "SESSION_EXPIRED"@,
    ) || text::has_prefix(error, "USER_DEACTIVATED"@) {
        Some(Invalidate::Revoked)
    } else {
        None
    }
}

/// Recognise an error that means the stored key is dead.
pub fn invalidating(error: &str) -> (r: Option<Invalidate>)
    ensures
        r == invalidates(error@),
{
    if starts_with(error, "AUTH_KEY_UNREGISTERED") || starts_with(error, "AUTH_KEY_INVALID") {
        return Some(Invalidate::Unregistered);
    }
    if starts_with(error, "SESSION_REVOKED") || starts_with(error, "SESSION_EXPIRED") {
        return Some(Invalidate::Revoked);
    }
    if starts_with(error, "USER_DEACTIVATED") {
        return Some(Invalidate::Revoked);
    }
    None
}

/// The record of a session.
pub open spec fn record(s: Stored) -> Seq<u8> {
    bytes::be32(MAGIC) + seq![s.dc] + bytes::be64(s.time_offset as u64) + bytes::be32(s.iap)
        + s.auth.key@ + bytes::be64(s.auth.id) + s.salt@
}

fn push_all(v: &mut Vec<u8>, b: &[u8])
    ensures
        final(v)@ == old(v)@ + b@,
{
    let ghost start = v@;
    v.extend_from_slice(b);
    assert(v@ =~= start + b@);
}

/// The record of a session. The salt stored is the last one seen, not the handshake's.
pub fn encode(s: &Stored) -> (r: Vec<u8>)
    ensures
        r@ == record(*s),
        r@.len() == LEN,
{
    let mut v: Vec<u8> = Vec::new();
    push_be32(&mut v, MAGIC);
    v.push(s.dc);
    push_be64(&mut v, s.time_offset as u64);
    push_be32(&mut v, s.iap);
    push_all(&mut v, vstd::array::array_as_slice(&s.auth.key));
    push_be64(&mut v, s.auth.id);
    push_all(&mut v, vstd::array::array_as_slice(&s.salt));
    assert(v@ =~= record(*s));
    v
}

/// Whether every byte is zero.
pub open spec fn blank(b: Seq<u8>) -> bool {
    forall|i: int| 0 <= i < b.len() ==> #[trigger] b[i] == 0
}

/// Whether some bytes are a record with a key in it.
///
/// A record whose key is all zeros is what a wiped or half-written file looks like, and zero is
/// not a key.
pub open spec fn is_record(b: Seq<u8>) -> bool {
    &&& b.len() == LEN
    &&& bytes::of_be32(b, 0) == MAGIC
    &&& !blank(b.subrange(17, 273))
}

/// Whether a session is the one some record holds. The clock of the handshake is not kept: an
/// absolute time from another launch is stale.
pub open spec fn held_by(s: Stored, b: Seq<u8>) -> bool {
    &&& s.dc == b[4]
    &&& s.time_offset == bytes::of_be64(b, 5) as i64
    &&& s.iap == bytes::of_be32(b, 13)
    &&& s.auth.key@ == b.subrange(17, 273)
    &&& s.auth.id == bytes::of_be64(b, 273)
    &&& s.auth.salt@ == b.subrange(281, 289)
    &&& s.auth.server_time == 0
    &&& s.salt@ == b.subrange(281, 289)
}

/// Read a record. One of the wrong width, with another magic or without a key is refused.
pub fn decode(b: &[u8]) -> (r: Option<Stored>)
    ensures
        (match r {
            Some(s) => is_record(b@) && held_by(s, b@),
            None => !is_record(b@),
        }),
{
    if b.len() != LEN {
        return None;
    }
    if get_be32(b, 0) != MAGIC {
        return None;
    }
    let mut key = [0u8;256];
    let mut any: bool = false;
    let mut i: usize = 0;
    while i < 256
        invariant
            i <= 256,
            b@.len() == LEN,
            forall|j: int| 0 <= j < i ==> #[trigger] key@[j] == b@[17 + j],
            any == !blank(b@.subrange(17, 17 + i)),
        decreases 256 - i,
    {
        let x: u8 = b[17 + i];
        key[i] = x;
        let ghost was = b@.subrange(17, 17 + i);
        let ghost now = b@.subrange(17, 17 + i + 1);
        assert(now =~= was.push(x));
        proof {
            if x != 0 {
                assert(now[i as int] != 0);
            }
            if !blank(was) {
                let j = choose|j: int| 0 <= j < was.len() && was[j] != 0;
                assert(now[j] == was[j]);
            }
        }
        if x != 0 {
            any = true;
        }
        i += 1;
    }
    assert(key@ =~= b@.subrange(17, 273));
    if !any {
        return None;
    }
    let mut salt = [0u8;8];
    let mut k: usize = 0;
    while k < 8
        invariant
            k <= 8,
            b@.len() == LEN,
            forall|j: int| 0 <= j < k ==> #[trigger] salt@[j] == b@[281 + j],
        decreases 8 - k,
    {
        salt[k] = b[281 + k];
        k += 1;
    }
    assert(salt@ =~= b@.subrange(281, 289));
    Some(
        Stored {
            dc: b[4],
            auth: AuthKey { key, id: get_be64(b, 273), salt, server_time: 0 },
            salt,
            time_offset: get_be64(b, 5) as i64,
            iap: get_be32(b, 13),
        },
    )
}

/// The stored session, from what its file held. A missing file, a foreign one and a corrupt one are
/// all the same answer: log in.
pub fn load(file: Option<&[u8]>) -> (r: Option<Stored>)
    ensures
        (match r {
            Some(s) => file is Some && is_record(file->0@) && held_by(s, file->0@),
            None => file is None || !is_record(file->0@),
        }),
{
    match file {
        Some(b) => decode(b),
        None => None,
    }
}

/// The file a session is written to, atomically: a battery pull leaves the old session or the new
/// one, never half a key.
pub fn save(s: &Stored) -> (r: FileWrite)
    ensures
        r.name@ == "session.bin"@,
        r.bytes@ == record(*s),
{
    FileWrite { name: "session.bin".to_owned(), bytes: encode(s) }
}

/// Throw the session away: what the file is overwritten with before it is deleted.
///
/// A delete unlinks the entry and leaves the bytes, and those bytes are the account. The delete
/// runs whether or not the overwrite succeeded.
pub fn clear(_why: Invalidate) -> (r: FileWrite)
    ensures
        r.name@ == "session.bin"@,
        r.bytes@.len() == LEN,
        blank(r.bytes@),
{
    let mut v: Vec<u8> = Vec::new();
    let mut i: usize = 0;
    while i < LEN
        invariant
            i <= LEN,
            v@.len() == i,
            blank(v@),
        decreases LEN - i,
    {
        v.push(0);
        i += 1;
    }
    FileWrite { name: "session.bin".to_owned(), bytes: v }
}

// ---- what holds of every session ------------------------------------------------------------------

/// What a record gives back is the session it was written from, given that it has a key: the data
/// centre, the key and its id, the last salt, the clock offset and the access point.
pub proof fn a_session_survives_a_round_trip(s: Stored, back: Stored)
    requires
        !blank(s.auth.key@),
        held_by(back, record(s)),
    ensures
        is_record(record(s)),
        back.dc == s.dc,
        back.auth.key@ == s.auth.key@,
        back.auth.id == s.auth.id,
        back.auth.salt@ == s.salt@,
        back.salt@ == s.salt@,
        back.time_offset == s.time_offset,
        back.iap == s.iap,
{
    lemma_record(s);
}

proof fn lemma_record(s: Stored)
    ensures
        record(s).len() == LEN,
        bytes::of_be32(record(s), 0) == MAGIC,
        record(s)[4] == s.dc,
        bytes::of_be64(record(s), 5) as i64 == s.time_offset,
        bytes::of_be32(record(s), 13) == s.iap,
        record(s).subrange(17, 273) == s.auth.key@,
        bytes::of_be64(record(s), 273) == s.auth.id,
        record(s).subrange(281, 289) == s.salt@,
{
    let b = record(s);
    assert(b.subrange(0, 4) =~= bytes::be32(MAGIC));
    bytes::be32_round_trip(b, 0, MAGIC);
    assert(b.subrange(5, 13) =~= bytes::be64(s.time_offset as u64));
    bytes::be64_round_trip(b, 5, s.time_offset as u64);
    bytes::signed64_round_trip(s.time_offset);
    assert(b.subrange(13, 17) =~= bytes::be32(s.iap));
    bytes::be32_round_trip(b, 13, s.iap);
    assert(b.subrange(17, 273) =~= s.auth.key@);
    assert(b.subrange(273, 281) =~= bytes::be64(s.auth.id));
    bytes::be64_round_trip(b, 273, s.auth.id);
    assert(b.subrange(281, 289) =~= s.salt@);
}

/// A session without a key does not come back.
pub proof fn a_session_without_a_key_is_refused(s: Stored)
    requires
        blank(s.auth.key@),
    ensures
        !is_record(record(s)),
{
    lemma_record(s);
}

/// What a wipe leaves is not a record, so nobody is logged in by it, and it holds nothing of the
/// key.
pub proof fn a_wiped_record_is_refused(b: Seq<u8>)
    requires
        b.len() == LEN,
        blank(b),
    ensures
        !is_record(b),
{
    let key = b.subrange(17, 273);
    assert forall|i: int| 0 <= i < key.len() implies #[trigger] key[i] == 0 by {
        assert(key[i] == b[17 + i]);
    }
}

/// A record that is cut short, or longer than one, is refused: half a key is never used.
pub proof fn a_record_of_another_width_is_refused(b: Seq<u8>)
    requires
        b.len() != LEN,
    ensures
        !is_record(b),
{
}

/// Whatever is appended to an error that kills a session, it means the same.
pub proof fn detail_does_not_hide_a_dead_session(error: Seq<char>, detail: Seq<char>)
    requires
        invalidates(error) is Some,
    ensures
        invalidates(error + detail) == invalidates(error),
{
    reveal_strlit("AUTH_KEY_UNREGISTERED");
    reveal_strlit("AUTH_KEY_INVALID");
    reveal_strlit("SESSION_REVOKED");
    reveal_strlit("SESSION_EXPIRED");
    reveal_strlit("USER_DEACTIVATED");
    let all = error + detail;
    lemma_prefix_grows(error, detail, "AUTH_KEY_UNREGISTERED"@);
    lemma_prefix_grows(error, detail, "AUTH_KEY_INVALID"@);
    lemma_prefix_grows(error, detail, "SESSION_REVOKED"@);
    lemma_prefix_grows(error, detail, "SESSION_EXPIRED"@);
    lemma_prefix_grows(error, detail, "USER_DEACTIVATED"@);
    lemma_first(all, "AUTH_KEY_UNREGISTERED"@);
    lemma_first(all, "AUTH_KEY_INVALID"@);
    lemma_first(all, "SESSION_REVOKED"@);
    lemma_first(all, "SESSION_EXPIRED"@);
    lemma_first(all, "USER_DEACTIVATED"@);
}

proof fn lemma_first(s: Seq<char>, p: Seq<char>)
    requires
        p.len() > 0,
    ensures
        text::has_prefix(s, p) ==> s.len() > 0 && s[0] == p[0],
{
    if text::has_prefix(s, p) {
        assert(s.take(p.len() as int)[0] == s[0]);
    }
}

proof fn lemma_prefix_grows(s: Seq<char>, more: Seq<char>, p: Seq<char>)
    ensures
        text::has_prefix(s, p) ==> text::has_prefix(s + more, p),
{
    if text::has_prefix(s, p) {
        assert((s + more).take(p.len() as int) =~= s.take(p.len() as int));
    }
}

} // verus!
