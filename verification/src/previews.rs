//! Which inline previews stay in memory.
//!
//! A preview arrives inside a page of history and cannot be fetched on its own, so one that is
//! dropped without having been written is gone until the whole conversation is read again. Hence
//! only what the disk took is freed, and what comes near the cursor again is read back.

use crate::model;
use crate::model::{Chat, ChatView, MessageView};
use crate::proto;
use vstd::prelude::*;

verus! {

/// How many bubbles to either side of the selected one keep their preview in memory.
pub const PREVIEW_BAND: usize = 20;

/// What the disk has to do for the preview of a message.
#[derive(Clone, Copy, Debug, PartialEq, Eq, Structural)]
pub enum PreviewAsk {
    Nothing,
    /// Read the preview kept under an id.
    Read(i64),
    /// Write the preview in memory under an id.
    Write(i64),
}

/// What the disk did for the preview of a message.
#[derive(Debug)]
pub enum PreviewDone {
    Nothing,
    /// What was read, if anything was there.
    Read(Option<Vec<u8>>),
    /// Whether it was written.
    Written(bool),
}

/// Whether a bubble is near the selected one.
pub open spec fn near(i: int, selected: int) -> bool {
    selected - PREVIEW_BAND <= i <= selected + PREVIEW_BAND
}

/// What the disk has to do for the preview of a message: bring back what is near and not in memory,
/// write what is in memory and not near. Without an id there is nowhere to keep it, so it stays.
pub open spec fn preview_wish(m: MessageView, i: int, selected: int) -> PreviewAsk {
    match m.media {
        Some(x) => if x.file_id() == 0 || !x.has_slot() {
            PreviewAsk::Nothing
        } else if near(i, selected) {
            if x.preview() is None {
                PreviewAsk::Read(x.file_id())
            } else {
                PreviewAsk::Nothing
            }
        } else if x.preview() is Some {
            PreviewAsk::Write(x.file_id())
        } else {
            PreviewAsk::Nothing
        },
        None => PreviewAsk::Nothing,
    }
}

/// A message whose attachment holds another preview.
pub open spec fn previewed(m: MessageView, p: Option<Seq<u8>>) -> MessageView {
    match m.media {
        Some(x) => MessageView { media: Some(x.with_preview(p)), ..m },
        None => m,
    }
}

/// A message after the disk did what it was asked for.
pub open spec fn settled(m: MessageView, i: int, selected: int, done: PreviewDone) -> MessageView {
    match (preview_wish(m, i, selected), done) {
        (PreviewAsk::Read(_), PreviewDone::Read(b)) => previewed(m, proto::bytes_opt(b)),
        (PreviewAsk::Write(_), PreviewDone::Written(ok)) => if ok {
            previewed(m, None)
        } else {
            m
        },
        _ => m,
    }
}

/// Whether a message was freed of its preview.
pub open spec fn frees(m: MessageView, i: int, selected: int, done: PreviewDone) -> bool {
    preview_wish(m, i, selected) is Write && (done matches PreviewDone::Written(ok) && ok)
}

/// How many of the first messages were freed of their preview.
pub open spec fn freed(s: Seq<MessageView>, selected: int, done: Seq<PreviewDone>, n: int) -> int
    decreases n,
{
    if n <= 0 {
        0
    } else {
        freed(s, selected, done, n - 1) + if frees(s[n - 1], n - 1, selected, done[n - 1]) {
            1int
        } else {
            0int
        }
    }
}

/// The messages after the disk did what it was asked for.
pub open spec fn settle(s: Seq<MessageView>, selected: int, done: Seq<PreviewDone>) -> Seq<
    MessageView,
> {
    Seq::new(s.len(), |i: int| settled(s[i], i, selected, done[i]))
}

/// What the disk has to do for the preview of a message, before [`window_previews`].
pub fn preview_ask(chat: &Chat, i: usize, selected: usize) -> (r: PreviewAsk)
    requires
        i < chat@.messages.len(),
    ensures
        r == preview_wish(chat@.messages[i as int], i as int, selected as int),
{
    assert(chat@.messages[i as int] == chat.messages@[i as int]@);
    match &chat.messages[i].media {
        Some(x) => {
            let id: i64 = x.file_id();
            let slotted: bool = match x {
                model::Media::Photo { .. } => true,
                model::Media::Sticker { .. } => true,
                _ => false,
            };
            if id == 0 || !slotted {
                return PreviewAsk::Nothing;
            }
            let lo: usize = if selected > PREVIEW_BAND {
                selected - PREVIEW_BAND
            } else {
                0
            };
            let close: bool = i >= lo && (i <= selected || i - selected <= PREVIEW_BAND);
            let held: bool = x.preview().is_some();
            if close {
                if held {
                    PreviewAsk::Nothing
                } else {
                    PreviewAsk::Read(id)
                }
            } else if held {
                PreviewAsk::Write(id)
            } else {
                PreviewAsk::Nothing
            }
        },
        None => PreviewAsk::Nothing,
    }
}

/// Take what the disk did for each message: free the previews that were written, and hold those
/// that were read. Returns how many were freed.
pub fn window_previews(chat: &mut Chat, selected: usize, done: Vec<PreviewDone>) -> (n: usize)
    requires
        done@.len() == old(chat)@.messages.len(),
    ensures
        final(chat)@ == (ChatView {
            messages: settle(old(chat)@.messages, selected as int, done@),
            ..old(chat)@
        }),
        n == freed(
            old(chat)@.messages,
            selected as int,
            done@,
            old(chat)@.messages.len() as int,
        ),
{
    let ghost before = chat@;
    let ghost all = done@;
    let mut done = done;
    let mut count: usize = 0;
    let total: usize = chat.messages.len();
    let mut i: usize = 0;
    while i < total
        invariant
            i <= total,
            total == before.messages.len(),
            chat.messages@.len() == total,
            all.len() == total,
            done@.len() == total,
            forall|k: int| i <= k < total ==> #[trigger] done@[k] == all[k],
            chat@ == (ChatView { messages: chat@.messages, ..before }),
            forall|k: int|
                0 <= k < i ==> #[trigger] chat@.messages[k] == settled(
                    before.messages[k],
                    k,
                    selected as int,
                    all[k],
                ),
            forall|k: int| i <= k < total ==> #[trigger] chat@.messages[k] == before.messages[k],
            count == freed(before.messages, selected as int, all, i as int),
            count <= i,
        decreases total - i,
    {
        assert(chat@.messages[i as int] == before.messages[i as int]);
        let ask = preview_ask(chat, i, selected);
        let mut step = PreviewDone::Nothing;
        std::mem::swap(&mut step, &mut done[i]);
        let ghost was = chat.messages@;
        let ghost held = chat@;
        let (change, put): (bool, Option<Vec<u8>>) = match (ask, step) {
            (PreviewAsk::Read(_), PreviewDone::Read(b)) => (true, b),
            (PreviewAsk::Write(_), PreviewDone::Written(ok)) => (ok, None),
            _ => (false, None),
        };
        let ghost to = proto::bytes_opt(put);
        if change {
            let freeing: bool = match ask {
                PreviewAsk::Write(_) => true,
                _ => false,
            };
            if freeing {
                count += 1;
            }
            match &mut chat.messages[i].media {
                Some(x) => {
                    if let Some(slot) = x.preview_slot() {
                        *slot = put;
                    }
                },
                None => {},
            }
            assert(chat.messages@[i as int]@ == previewed(held.messages[i as int], to));
            assert(forall|k: int|
                0 <= k < total && k != i ==> #[trigger] chat.messages@[k] == was[k]);
        }
        assert forall|k: int| 0 <= k < total && k != i implies #[trigger] chat@.messages[k]
            == held.messages[k] by {
            assert(chat.messages@[k] == was[k]);
        }
        assert(chat@.messages[i as int] == settled(
            before.messages[i as int],
            i as int,
            selected as int,
            all[i as int],
        ));
        i += 1;
    }
    assert(chat@.messages =~= settle(before.messages, selected as int, all));
    assert(chat@ =~= (ChatView {
        messages: settle(before.messages, selected as int, all),
        ..before
    }));
    count
}

/// A preview is only let go of once the disk has it: a write that fails changes nothing, and the
/// cursor's own neighbourhood is never written out.
pub proof fn an_unwritten_preview_stays(m: MessageView, i: int, selected: int, done: PreviewDone)
    requires
        m.media is Some,
        m.media->0.preview() is Some,
        near(i, selected) || !(done matches PreviewDone::Written(ok) && ok),
    ensures
        settled(m, i, selected, done) == m,
{
}

/// A preview that was written comes back when the cursor reaches it again, as long as the disk gives
/// back what it took.
pub proof fn a_freed_preview_comes_back(m: MessageView, i: int, far: int, close: int, b: Vec<u8>)
    requires
        m.media is Some,
        m.media->0.file_id() != 0,
        m.media->0.preview() == Some(b@),
        !near(i, far),
        near(i, close),
    ensures
        ({
            let gone = settled(m, i, far, PreviewDone::Written(true));
            &&& gone.media is Some && gone.media->0.preview() is None
            &&& preview_wish(gone, i, close) == PreviewAsk::Read(m.media->0.file_id())
            &&& settled(gone, i, close, PreviewDone::Read(Some(b))) == m
        }),
{
}

} // verus!
