//! A recorded handshake, replayed on the handset.
//!
//! The recording holds what was drawn, what the server sent and what was sent to it. Replaying it
//! needs no network: the same input has to give the same bytes, and a log line says where it did not.

use crate::link::{HandshakeError, TlError};
use crate::model::copy_bytes;
use crate::text;
use crate::text::{hex, push_hex, push_u64};
use vstd::prelude::*;
use vstd::slice::slice_subrange;
use vstd::string::*;

verus! {

/// What the check found.
#[derive(Debug, PartialEq, Eq)]
pub enum Outcome {
    /// Every step reproduced the recording.
    Passed,
    /// A step gave other bytes, or refused a reply it should take: which one, and how.
    Failed(&'static str, String),
}

/// The values of an [`Outcome`].
pub enum OutcomeView {
    Passed,
    Failed(&'static str, Seq<char>),
}

impl View for Outcome {
    type V = OutcomeView;

    open spec fn view(&self) -> OutcomeView {
        match *self {
            Outcome::Passed => OutcomeView::Passed,
            Outcome::Failed(step, why) => OutcomeView::Failed(step, why@),
        }
    }
}

/// The recorded draws, in the order they were made: a tape, not a source of chance.
#[derive(Debug)]
pub struct Tape {
    pub bytes: Vec<u8>,
    pub pos: usize,
    /// Whether more was drawn than was recorded. A check that ends the application is of no use, so
    /// this is kept and said at the end.
    pub exhausted: bool,
}

impl Tape {
    /// Whether the tape stands inside its bytes.
    pub open spec fn sound(&self) -> bool {
        self.pos <= self.bytes@.len()
    }

    /// Whether a draw is on the tape.
    pub open spec fn holds(&self, n: nat) -> bool {
        self.pos + n <= self.bytes@.len()
    }

    /// What a draw gives: the next bytes, or zeros past the end.
    pub open spec fn drawn(&self, n: nat) -> Seq<u8> {
        if self.holds(n) {
            self.bytes@.subrange(self.pos as int, self.pos + n)
        } else {
            Seq::new(n, |i: int| 0u8)
        }
    }

    /// A tape from its beginning.
    pub fn new(bytes: Vec<u8>) -> (r: Tape)
        ensures
            r == (Tape { bytes, pos: 0, exhausted: false }),
            r.sound(),
    {
        Tape { bytes, pos: 0, exhausted: false }
    }

    /// Draw some bytes.
    pub fn fill(&mut self, n: usize) -> (r: Vec<u8>)
        requires
            old(self).sound(),
        ensures
            final(self).sound(),
            r@ == old(self).drawn(n as nat),
            final(self).bytes == old(self).bytes,
            final(self).pos == (if old(self).holds(n as nat) {
                old(self).pos + n
            } else {
                old(self).pos as int
            }),
            final(self).exhausted == (old(self).exhausted || !old(self).holds(n as nat)),
    {
        let ghost before = *self;
        let mut out: Vec<u8> = Vec::new();
        let len: usize = self.bytes.len();
        let left: usize = len - self.pos;
        let short: bool = n > left;
        let mut i: usize = 0;
        while i < n
            invariant
                i <= n,
                *self == before,
                before.sound(),
                len == before.bytes@.len(),
                short == !before.holds(n as nat),
                out@ =~= before.drawn(n as nat).take(i as int),
            decreases n - i,
        {
            if short {
                out.push(0);
            } else {
                out.push(self.bytes[self.pos + i]);
            }
            i += 1;
        }
        assert(before.drawn(n as nat).take(n as int) =~= before.drawn(n as nat));
        if short {
            self.exhausted = true;
        } else {
            self.pos = self.pos + n;
        }
        out
    }
}

/// The number whose four bytes, least significant first, stand at `at`.
pub open spec fn le32(b: Seq<u8>, at: int) -> nat {
    (b[at] + 256 * b[at + 1] + 65536 * b[at + 2] + 16777216 * b[at + 3]) as nat
}

/// How long a part of a recording is. The five lengths come first.
pub open spec fn part_len(blob: Seq<u8>, i: int) -> nat {
    le32(blob, 4 * i)
}

/// Where a part of a recording begins: behind the lengths and the parts before it.
pub open spec fn part_at(blob: Seq<u8>, i: int) -> nat
    decreases i,
{
    if i <= 0 {
        20
    } else {
        part_at(blob, i - 1) + part_len(blob, i - 1)
    }
}

/// A part of a recording.
pub open spec fn part(blob: Seq<u8>, i: int) -> Seq<u8> {
    blob.subrange(part_at(blob, i) as int, (part_at(blob, i) + part_len(blob, i)) as int)
}

/// Whether a recording holds what its lengths say.
pub open spec fn whole(blob: Seq<u8>) -> bool {
    blob.len() >= 20 && part_at(blob, 5) <= blob.len()
}

/// The five parts of a recording: the draws, the server's two messages, and the two it was sent.
#[derive(Debug)]
pub struct Parts {
    pub tape: Vec<u8>,
    pub res_pq: Vec<u8>,
    pub dh_params: Vec<u8>,
    pub req_pq: Vec<u8>,
    pub req_dh: Vec<u8>,
}

fn read_le32(b: &[u8], at: usize) -> (n: u32)
    requires
        at + 4 <= b@.len(),
    ensures
        n == le32(b@, at as int),
{
    let (w, x, y, z): (u8, u8, u8, u8) = (b[at], b[at + 1], b[at + 2], b[at + 3]);
    w as u32 + 256 * (x as u32) + 65536 * (y as u32) + 16777216 * (z as u32)
}

/// The next part of a recording, where it is all there.
fn next_part(blob: &[u8], i: usize, at: usize) -> (r: Option<(Vec<u8>, usize)>)
    requires
        i < 5,
        20 <= at <= blob@.len(),
        at == part_at(blob@, i as int),
    ensures
        (match r {
            Some((v, then)) => v@ == part(blob@, i as int) && then == part_at(
                blob@,
                i + 1,
            ) && then <= blob@.len(),
            None => part_at(blob@, i + 1) > blob@.len(),
        }),
{
    let n: u32 = read_le32(blob, 4 * i);
    let left: usize = blob.len() - at;
    if n as u64 > left as u64 {
        return None;
    }
    let n: usize = n as usize;
    let v = copy_bytes(slice_subrange(blob, at, at + n));
    assert(v@ =~= part(blob@, i as int));
    Some((v, at + n))
}

proof fn parts_come_in_order(blob: Seq<u8>, i: int, j: int)
    requires
        i <= j,
    ensures
        part_at(blob, i) <= part_at(blob, j),
    decreases j - i,
{
    if i < j {
        parts_come_in_order(blob, i, j - 1);
    }
}

/// Take a recording apart. One that is cut short, or whose lengths say more than it holds, is
/// refused.
pub fn split(blob: &[u8]) -> (r: Option<Parts>)
    ensures
        r is Some == whole(blob@),
        r matches Some(p) ==> p.tape@ == part(blob@, 0) && p.res_pq@ == part(blob@, 1)
            && p.dh_params@ == part(blob@, 2) && p.req_pq@ == part(blob@, 3) && p.req_dh@ == part(
            blob@,
            4,
        ),
{
    if blob.len() < 20 {
        return None;
    }
    proof {
        parts_come_in_order(blob@, 1, 5);
        parts_come_in_order(blob@, 2, 5);
        parts_come_in_order(blob@, 3, 5);
        parts_come_in_order(blob@, 4, 5);
    }
    let (tape, at) = next_part(blob, 0, 20)?;
    let (res_pq, at) = next_part(blob, 1, at)?;
    let (dh_params, at) = next_part(blob, 2, at)?;
    let (req_pq, at) = next_part(blob, 3, at)?;
    let (req_dh, _) = next_part(blob, 4, at)?;
    Some(Parts { tape, res_pq, dh_params, req_pq, req_dh })
}

/// The first place at which two runs of bytes differ, or the end of the shorter one.
pub open spec fn parting(a: Seq<u8>, b: Seq<u8>) -> nat
    decreases a.len(),
{
    if a.len() == 0 || b.len() == 0 || a[0] != b[0] {
        0
    } else {
        1 + parting(a.skip(1), b.skip(1))
    }
}

proof fn parting_is(a: Seq<u8>, b: Seq<u8>, n: int)
    requires
        0 <= n <= a.len(),
        n <= b.len(),
        forall|i: int| 0 <= i < n ==> a[i] == b[i],
        n < a.len() && n < b.len() ==> a[n] != b[n],
    ensures
        parting(a, b) == n,
    decreases n,
{
    if n > 0 {
        assert(a[0] == b[0]);
        assert forall|i: int| 0 <= i < n - 1 implies a.skip(1)[i] == b.skip(1)[i] by {
            assert(a[i + 1] == b[i + 1]);
        }
        parting_is(a.skip(1), b.skip(1), n - 1);
    }
}

/// The first place at which two runs of bytes differ, or the end of the shorter one.
pub fn first_difference(a: &[u8], b: &[u8]) -> (r: usize)
    ensures
        r == parting(a@, b@),
        r <= a@.len(),
        r <= b@.len(),
        forall|i: int| 0 <= i < r ==> a@[i] == b@[i],
        r < a@.len() && r < b@.len() ==> a@[r as int] != b@[r as int],
{
    let mut i: usize = 0;
    while i < a.len() && i < b.len() && a[i] == b[i]
        invariant
            i <= a@.len(),
            i <= b@.len(),
            forall|k: int| 0 <= k < i ==> a@[k] == b@[k],
        decreases a.len() - i,
    {
        i += 1;
    }
    proof {
        parting_is(a@, b@, i as int);
    }
    i
}

/// How two runs of bytes differ, in words: where, and eight bytes of each from there.
pub open spec fn difference(what: Seq<char>, got: Seq<u8>, want: Seq<u8>) -> Seq<char> {
    let at = parting(got, want);
    what + " differs at "@ + text::decimal(at) + ", got "@ + text::hex_of(text::up_to(got.skip(at as int), 8))
        + " want "@ + text::hex_of(text::up_to(want.skip(at as int), 8))
}

/// How two runs of bytes differ, in words.
pub fn diff(what: &'static str, got: &[u8], want: &[u8]) -> (r: String)
    ensures
        r@ == difference(what@, got@, want@),
{
    let at: usize = first_difference(got, want);
    let mut s = what.to_owned();
    s.append(" differs at ");
    push_u64(&mut s, at as u64);
    s.append(", got ");
    let x = hex(slice_subrange(got, at, got.len()), 8);
    s.append(x.as_str());
    s.append(" want ");
    let y = hex(slice_subrange(want, at, want.len()), 8);
    s.append(y.as_str());
    assert(got@.subrange(at as int, got@.len() as int) =~= got@.skip(at as int));
    assert(want@.subrange(at as int, want@.len() as int) =~= want@.skip(at as int));
    s
}

/// What a failed handshake is called.
pub open spec fn error_name(e: HandshakeError) -> Seq<char> {
    match e {
        HandshakeError::Tl(TlError::Truncated) => "tl truncated"@,
        HandshakeError::Tl(TlError::BadLength) => "tl bad length"@,
        HandshakeError::Tl(TlError::UnknownConstructor(c)) => "tl unknown ctor "@
            + text::hex_padded(c as u64, 8),
        HandshakeError::Tl(TlError::Unexpected { want, got }) => "tl wanted "@ + text::hex_padded(
            want as u64,
            8,
        ) + " got "@ + text::hex_padded(got as u64, 8),
        HandshakeError::Crypto => "crypto: the SHA-1 on the decrypted block did not match"@,
        HandshakeError::OutOfOrder => "out of order"@,
        HandshakeError::NonceMismatch => "nonce mismatch"@,
        HandshakeError::NotFactorable => "pq not factorable"@,
        HandshakeError::NoUsableKey => "no usable RSA key"@,
        HandshakeError::ServerRejected => "server rejected"@,
        HandshakeError::UnknownDhPrime => "unknown dh prime"@,
        HandshakeError::BadDhParams => "bad dh params"@,
        HandshakeError::DhGenFailed => "dh gen failed"@,
        HandshakeError::KeyMismatch => "key mismatch"@,
    }
}

/// What a failed handshake is called.
pub fn name_of(e: HandshakeError) -> (r: String)
    ensures
        r@ == error_name(e),
{
    match e {
        HandshakeError::Tl(TlError::Truncated) => "tl truncated".to_owned(),
        HandshakeError::Tl(TlError::BadLength) => "tl bad length".to_owned(),
        HandshakeError::Tl(TlError::UnknownConstructor(c)) => {
            let mut s = "tl unknown ctor ".to_owned();
            push_hex(&mut s, c as u64, 8);
            s
        },
        HandshakeError::Tl(TlError::Unexpected { want, got }) => {
            let mut s = "tl wanted ".to_owned();
            push_hex(&mut s, want as u64, 8);
            s.append(" got ");
            push_hex(&mut s, got as u64, 8);
            s
        },
        HandshakeError::Crypto => {
            "crypto: the SHA-1 on the decrypted block did not match".to_owned()
        },
        HandshakeError::OutOfOrder => "out of order".to_owned(),
        HandshakeError::NonceMismatch => "nonce mismatch".to_owned(),
        HandshakeError::NotFactorable => "pq not factorable".to_owned(),
        HandshakeError::NoUsableKey => "no usable RSA key".to_owned(),
        HandshakeError::ServerRejected => "server rejected".to_owned(),
        HandshakeError::UnknownDhPrime => "unknown dh prime".to_owned(),
        HandshakeError::BadDhParams => "bad dh params".to_owned(),
        HandshakeError::DhGenFailed => "dh gen failed".to_owned(),
        HandshakeError::KeyMismatch => "key mismatch".to_owned(),
    }
}

/// What the handshake did at a step.
#[derive(Debug)]
pub enum Step {
    Sent(Vec<u8>),
    ModPow { base: Vec<u8>, modulus: Vec<u8> },
    /// It asked for something else.
    Other,
}

/// What the handshake did when it was replayed: at its start, on each of the two messages, and
/// whether the tape ran out under it.
#[derive(Debug)]
pub struct Replay {
    pub start: Step,
    pub on_res_pq: Result<Step, HandshakeError>,
    pub on_dh_params: Result<Step, HandshakeError>,
    pub exhausted: bool,
}

/// What is wrong with a step that should have sent some bytes, if anything is.
pub open spec fn send_fault(
    s: Step,
    what: Seq<char>,
    idle: Seq<char>,
    want: Seq<u8>,
) -> Option<Seq<char>> {
    match s {
        Step::Sent(out) => if out@ == want {
            None
        } else {
            Some(difference(what, out@, want))
        },
        _ => Some(idle),
    }
}

/// What is wrong with a step that should have asked for an exponentiation, if anything is.
pub open spec fn modpow_fault(s: Step) -> Option<Seq<char>> {
    match s {
        Step::ModPow { base, modulus } => if base@ == seq![3u8] && modulus@.len() == 256 {
            None
        } else {
            Some("wrong DH parameters"@)
        },
        _ => Some("did not ask for a modpow"@),
    }
}

/// What a replay of a recording shows: the first thing that went wrong, in the order of the steps.
pub open spec fn verdict(blob: Seq<u8>, r: Replay) -> OutcomeView {
    if !whole(blob) {
        OutcomeView::Failed("fixture", "blob is malformed"@)
    } else {
        match send_fault(r.start, "req_pq_multi"@, "start did not send"@, part(blob, 3)) {
            Some(why) => OutcomeView::Failed("step1", why),
            None => match r.on_res_pq {
                Err(e) => OutcomeView::Failed("step2", error_name(e)),
                Ok(s) => match send_fault(
                    s,
                    "req_DH_params"@,
                    "did not send req_DH_params"@,
                    part(blob, 4),
                ) {
                    Some(why) => OutcomeView::Failed("step2", why),
                    None => match r.on_dh_params {
                        Err(e) => OutcomeView::Failed("step3", error_name(e)),
                        Ok(s) => match modpow_fault(s) {
                            Some(why) => OutcomeView::Failed("step3", why),
                            None => if r.exhausted {
                                OutcomeView::Failed("tape", "ran out of recorded randomness"@)
                            } else {
                                OutcomeView::Passed
                            },
                        },
                    },
                },
            },
        }
    }
}

fn same_bytes(a: &[u8], b: &[u8]) -> (r: bool)
    ensures
        r == (a@ == b@),
{
    if a.len() != b.len() {
        return false;
    }
    let at: usize = first_difference(a, b);
    if at == a.len() {
        assert(a@ =~= b@);
        true
    } else {
        false
    }
}

fn wrong_send(s: &Step, what: &'static str, idle: &'static str, want: &[u8]) -> (r: Option<String>)
    ensures
        (match r {
            Some(why) => Some(why@),
            None => None,
        }) == send_fault(*s, what@, idle@, want@),
{
    match s {
        Step::Sent(out) => if same_bytes(out.as_slice(), want) {
            None
        } else {
            Some(diff(what, out.as_slice(), want))
        },
        _ => Some(idle.to_owned()),
    }
}

fn wrong_modpow(s: &Step) -> (r: Option<String>)
    ensures
        (match r {
            Some(why) => Some(why@),
            None => None,
        }) == modpow_fault(*s),
{
    match s {
        Step::ModPow { base, modulus } => {
            if base.len() == 1 && base[0] == 3 && modulus.len() == 256 {
                assert(base@ =~= seq![3u8]);
                None
            } else {
                Some("wrong DH parameters".to_owned())
            }
        },
        _ => Some("did not ask for a modpow".to_owned()),
    }
}

/// What a replay of a recording shows.
pub fn run(blob: &[u8], r: &Replay) -> (out: Outcome)
    ensures
        out@ == verdict(blob@, *r),
{
    let parts = match split(blob) {
        Some(p) => p,
        None => {
            return Outcome::Failed("fixture", "blob is malformed".to_owned());
        },
    };
    if let Some(why) = wrong_send(
        &r.start,
        "req_pq_multi",
        "start did not send",
        parts.req_pq.as_slice(),
    ) {
        return Outcome::Failed("step1", why);
    }
    match &r.on_res_pq {
        Err(e) => {
            return Outcome::Failed("step2", name_of(*e));
        },
        Ok(s) => {
            if let Some(why) = wrong_send(
                s,
                "req_DH_params",
                "did not send req_DH_params",
                parts.req_dh.as_slice(),
            ) {
                return Outcome::Failed("step2", why);
            }
        },
    }
    match &r.on_dh_params {
        Err(e) => {
            return Outcome::Failed("step3", name_of(*e));
        },
        Ok(s) => {
            if let Some(why) = wrong_modpow(s) {
                return Outcome::Failed("step3", why);
            }
        },
    }
    if r.exhausted {
        return Outcome::Failed("tape", "ran out of recorded randomness".to_owned());
    }
    Outcome::Passed
}

/// Only a replay that gave the recorded bytes at every step, out of the recorded draws, is a success.
pub proof fn a_success_reproduced_the_recording(blob: Seq<u8>, r: Replay)
    requires
        verdict(blob, r) is Passed,
    ensures
        whole(blob),
        r.start is Sent && r.start->Sent_0@ == part(blob, 3),
        r.on_res_pq is Ok && r.on_res_pq->Ok_0 is Sent && r.on_res_pq->Ok_0->Sent_0@ == part(
            blob,
            4,
        ),
        r.on_dh_params is Ok && r.on_dh_params->Ok_0 is ModPow,
        !r.exhausted,
{
}

/// Two draws one after the other are one draw of both.
pub proof fn the_tape_is_read_in_order(t: Tape, u: Tape, n: nat, k: nat)
    requires
        t.holds(n + k),
        u.bytes == t.bytes,
        u.pos == t.pos + n,
    ensures
        t.drawn(n) + u.drawn(k) == t.drawn(n + k),
{
    assert(t.drawn(n) + u.drawn(k) =~= t.drawn(n + k));
}

/// A recording too short for its lengths is refused, whatever it holds.
pub proof fn a_short_recording_is_refused(blob: Seq<u8>)
    requires
        blob.len() < 20,
    ensures
        !whole(blob),
{
}

} // verus!
