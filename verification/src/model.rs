//! The data the screens draw.
//!
//! These are the shapes the screens need rather than the shapes the protocol returns: a page
//! of dialogs or of history is folded in here, and nothing above this module sees a reply.

pub use crate::pages::{
    hhmm, inline_preview, media_from_proto, merge_dialogs, merge_history, pick_size, push_message,
    refresh_media, store_from_dialogs, trim_window,
};
pub use crate::previews::window_previews;
use crate::proto;
use crate::proto::Kind;
use crate::text::chars_of;
use vstd::prelude::*;
use vstd::string::*;
use vstd::utf8;

verus! {

/// One bubble of a conversation.
#[derive(Debug, PartialEq, Eq)]
pub struct Message {
    /// The server's id, zero while a message sent from here has not been answered.
    pub id: i32,
    pub text: String,
    /// True when this account sent it.
    pub outgoing: bool,
    /// Already formatted as `HH:MM`.
    pub time: String,
    pub state: Delivery,
    pub media: Option<Media>,
}

/// What a message carries, with enough to draw a placeholder and to fetch the real thing.
///
/// Every arm names the data centre that holds the bytes, which need not be the one the session
/// is on.
#[derive(Debug, PartialEq, Eq)]
pub enum Media {
    Photo {
        id: i64,
        access_hash: i64,
        file_reference: Vec<u8>,
        dc_id: i32,
        /// The size to ask for. Empty when the photo listed none, which makes it unfetchable.
        thumb_size: String,
        size: i64,
        /// A whole JPEG that arrived inside the message.
        preview: Option<Vec<u8>>,
    },
    Voice {
        id: i64,
        access_hash: i64,
        file_reference: Vec<u8>,
        dc_id: i32,
        duration: i32,
        waveform: Option<Vec<u8>>,
        size: i64,
    },
    Audio {
        id: i64,
        access_hash: i64,
        file_reference: Vec<u8>,
        dc_id: i32,
        filename: String,
        duration: i32,
        size: i64,
    },
    File {
        id: i64,
        access_hash: i64,
        file_reference: Vec<u8>,
        dc_id: i32,
        filename: String,
        size: i64,
    },
    /// Never downloaded: no codec on this handset opens one.
    Sticker {
        id: i64,
        access_hash: i64,
        file_reference: Vec<u8>,
        dc_id: i32,
        alt: String,
        preview: Option<Vec<u8>>,
    },
    Unknown,
}

/// Which arm of [`Media`] a download in flight is for.
#[derive(Clone, Copy, Debug, PartialEq, Eq, Structural)]
pub enum MediaKind {
    Photo,
    Voice,
    Audio,
    File,
}

/// A peer in the form a request takes.
#[derive(Clone, Copy, Debug, PartialEq, Eq, Structural)]
pub struct PeerRef {
    pub kind: Kind,
    pub id: i64,
    pub access_hash: i64,
}

/// What became of a message sent from here, shown as ticks.
#[derive(Clone, Copy, Debug, PartialEq, Eq, Structural)]
pub enum Delivery {
    /// Queued, not yet acknowledged by the server.
    Pending,
    Sent,
    Read,
    /// Never reached the server.
    Failed,
}

/// One conversation.
#[derive(Debug, PartialEq, Eq)]
pub struct Chat {
    /// Who this is. `None` for sample data, which has no server behind it.
    pub peer: Option<PeerRef>,
    /// The oldest message id held, which the next page of history is asked above.
    pub oldest: i32,
    /// Whether every message the server has is here.
    pub complete: bool,
    /// Whether the window is full, so that older messages are no longer kept.
    pub windowed: bool,
    /// Whether a page is in flight.
    pub loading: bool,
    pub name: String,
    pub time: String,
    pub unread: u32,
    /// Whether the last message is ours.
    pub last_outgoing: bool,
    pub messages: Vec<Message>,
}

/// Everything the chat list holds.
#[derive(Debug, PartialEq, Eq)]
pub struct Store {
    pub chats: Vec<Chat>,
    /// What the title bar says about the connection.
    pub status: String,
    /// Whether a page of dialogs is in flight.
    pub dialogs_loading: bool,
    /// Whether every dialog the account has is here.
    pub dialogs_complete: bool,
    pub dialog_offset_date: i32,
    pub dialog_offset_id: i32,
    pub dialog_offset_peer: Option<PeerRef>,
}

/// The values of a [`Media`].
pub enum MediaView {
    Photo {
        id: i64,
        access_hash: i64,
        file_reference: Seq<u8>,
        dc_id: i32,
        thumb_size: Seq<char>,
        size: i64,
        preview: Option<Seq<u8>>,
    },
    Voice {
        id: i64,
        access_hash: i64,
        file_reference: Seq<u8>,
        dc_id: i32,
        duration: i32,
        waveform: Option<Seq<u8>>,
        size: i64,
    },
    Audio {
        id: i64,
        access_hash: i64,
        file_reference: Seq<u8>,
        dc_id: i32,
        filename: Seq<char>,
        duration: i32,
        size: i64,
    },
    File {
        id: i64,
        access_hash: i64,
        file_reference: Seq<u8>,
        dc_id: i32,
        filename: Seq<char>,
        size: i64,
    },
    Sticker {
        id: i64,
        access_hash: i64,
        file_reference: Seq<u8>,
        dc_id: i32,
        alt: Seq<char>,
        preview: Option<Seq<u8>>,
    },
    Unknown,
}

impl View for Media {
    type V = MediaView;

    open spec fn view(&self) -> MediaView {
        match *self {
            Media::Photo { id, access_hash, file_reference, dc_id, thumb_size, size, preview } =>
                MediaView::Photo {
                id,
                access_hash,
                file_reference: file_reference@,
                dc_id,
                thumb_size: thumb_size@,
                size,
                preview: proto::bytes_opt(preview),
            },
            Media::Voice { id, access_hash, file_reference, dc_id, duration, waveform, size } =>
                MediaView::Voice {
                id,
                access_hash,
                file_reference: file_reference@,
                dc_id,
                duration,
                waveform: proto::bytes_opt(waveform),
                size,
            },
            Media::Audio { id, access_hash, file_reference, dc_id, filename, duration, size } =>
                MediaView::Audio {
                id,
                access_hash,
                file_reference: file_reference@,
                dc_id,
                filename: filename@,
                duration,
                size,
            },
            Media::File { id, access_hash, file_reference, dc_id, filename, size } =>
                MediaView::File {
                id,
                access_hash,
                file_reference: file_reference@,
                dc_id,
                filename: filename@,
                size,
            },
            Media::Sticker { id, access_hash, file_reference, dc_id, alt, preview } =>
                MediaView::Sticker {
                id,
                access_hash,
                file_reference: file_reference@,
                dc_id,
                alt: alt@,
                preview: proto::bytes_opt(preview),
            },
            Media::Unknown => MediaView::Unknown,
        }
    }
}

/// The values of a [`Message`].
pub struct MessageView {
    pub id: i32,
    pub text: Seq<char>,
    pub outgoing: bool,
    pub time: Seq<char>,
    pub state: Delivery,
    pub media: Option<MediaView>,
}

/// The values of an optional attachment.
pub open spec fn media_opt(m: Option<Media>) -> Option<MediaView> {
    match m {
        Some(m) => Some(m@),
        None => None,
    }
}

impl View for Message {
    type V = MessageView;

    open spec fn view(&self) -> MessageView {
        MessageView {
            id: self.id,
            text: self.text@,
            outgoing: self.outgoing,
            time: self.time@,
            state: self.state,
            media: media_opt(self.media),
        }
    }
}

/// The values of some messages, in order.
pub open spec fn message_views(s: Seq<Message>) -> Seq<MessageView> {
    Seq::new(s.len(), |i: int| s[i]@)
}

/// The values of a [`Chat`].
#[verifier::ext_equal]
pub struct ChatView {
    pub peer: Option<PeerRef>,
    pub oldest: i32,
    pub complete: bool,
    pub windowed: bool,
    pub loading: bool,
    pub name: Seq<char>,
    pub time: Seq<char>,
    pub unread: u32,
    pub last_outgoing: bool,
    pub messages: Seq<MessageView>,
}

impl View for Chat {
    type V = ChatView;

    open spec fn view(&self) -> ChatView {
        ChatView {
            peer: self.peer,
            oldest: self.oldest,
            complete: self.complete,
            windowed: self.windowed,
            loading: self.loading,
            name: self.name@,
            time: self.time@,
            unread: self.unread,
            last_outgoing: self.last_outgoing,
            messages: message_views(self.messages@),
        }
    }
}

/// The values of some chats, in order.
pub open spec fn chat_views(s: Seq<Chat>) -> Seq<ChatView> {
    Seq::new(s.len(), |i: int| s[i]@)
}

/// The values of a [`Store`].
#[verifier::ext_equal]
pub struct StoreView {
    pub chats: Seq<ChatView>,
    pub status: Seq<char>,
    pub dialogs_loading: bool,
    pub dialogs_complete: bool,
    pub dialog_offset_date: i32,
    pub dialog_offset_id: i32,
    pub dialog_offset_peer: Option<PeerRef>,
}

impl View for Store {
    type V = StoreView;

    open spec fn view(&self) -> StoreView {
        StoreView {
            chats: chat_views(self.chats@),
            status: self.status@,
            dialogs_loading: self.dialogs_loading,
            dialogs_complete: self.dialogs_complete,
            dialog_offset_date: self.dialog_offset_date,
            dialog_offset_id: self.dialog_offset_id,
            dialog_offset_peer: self.dialog_offset_peer,
        }
    }
}

/// A chat with nothing in it.
pub open spec fn empty_chat() -> ChatView {
    ChatView {
        peer: None,
        oldest: 0,
        complete: false,
        windowed: false,
        loading: false,
        name: seq![],
        time: seq![],
        unread: 0,
        last_outgoing: false,
        messages: seq![],
    }
}

/// A store with nothing in it.
pub open spec fn empty_store() -> StoreView {
    StoreView {
        chats: seq![],
        status: seq![],
        dialogs_loading: false,
        dialogs_complete: false,
        dialog_offset_date: 0,
        dialog_offset_id: 0,
        dialog_offset_peer: None,
    }
}

impl Default for Chat {
    fn default() -> (r: Self)
        ensures
            r@ == empty_chat(),
    {
        let r = Chat {
            peer: None,
            oldest: 0,
            complete: false,
            windowed: false,
            loading: false,
            name: String::new(),
            time: String::new(),
            unread: 0,
            last_outgoing: false,
            messages: Vec::new(),
        };
        assert(r@ =~= empty_chat());
        r
    }
}

impl Default for Store {
    fn default() -> (r: Self)
        ensures
            r@ == empty_store(),
    {
        let r = Store {
            chats: Vec::new(),
            status: String::new(),
            dialogs_loading: false,
            dialogs_complete: false,
            dialog_offset_date: 0,
            dialog_offset_id: 0,
            dialog_offset_peer: None,
        };
        assert(r@ =~= empty_store());
        r
    }
}

/// A copy of some bytes.
pub fn copy_bytes(b: &[u8]) -> (r: Vec<u8>)
    ensures
        r@ == b@,
{
    vstd::slice::slice_to_vec(b)
}

/// A copy of some bytes that may be absent.
pub fn copy_bytes_opt(b: &Option<Vec<u8>>) -> (r: Option<Vec<u8>>)
    ensures
        proto::bytes_opt(r) == proto::bytes_opt(*b),
{
    match b {
        Some(v) => Some(copy_bytes(v.as_slice())),
        None => None,
    }
}

impl Clone for Message {
    fn clone(&self) -> (r: Self)
        ensures
            r@ == self@,
    {
        Message {
            id: self.id,
            text: self.text.clone(),
            outgoing: self.outgoing,
            time: self.time.clone(),
            state: self.state,
            media: match &self.media {
                Some(m) => Some(m.clone()),
                None => None,
            },
        }
    }
}

fn copied_messages(v: &Vec<Message>) -> (r: Vec<Message>)
    ensures
        message_views(r@) == message_views(v@),
{
    let mut out: Vec<Message> = Vec::new();
    let mut i: usize = 0;
    while i < v.len()
        invariant
            i <= v.len(),
            out@.len() == i,
            forall|k: int| 0 <= k < i ==> (#[trigger] out@[k])@ == v@[k]@,
        decreases v.len() - i,
    {
        out.push(v[i].clone());
        i += 1;
    }
    assert(message_views(out@) =~= message_views(v@));
    out
}

impl Clone for Chat {
    fn clone(&self) -> (r: Self)
        ensures
            r@ == self@,
    {
        Chat {
            peer: self.peer,
            oldest: self.oldest,
            complete: self.complete,
            windowed: self.windowed,
            loading: self.loading,
            name: self.name.clone(),
            time: self.time.clone(),
            unread: self.unread,
            last_outgoing: self.last_outgoing,
            messages: copied_messages(&self.messages),
        }
    }
}

impl Clone for Media {
    fn clone(&self) -> (r: Self)
        ensures
            r@ == self@,
    {
        match self {
            Media::Photo { id, access_hash, file_reference, dc_id, thumb_size, size, preview } =>
                Media::Photo {
                id: *id,
                access_hash: *access_hash,
                file_reference: copy_bytes(file_reference.as_slice()),
                dc_id: *dc_id,
                thumb_size: thumb_size.clone(),
                size: *size,
                preview: copy_bytes_opt(preview),
            },
            Media::Voice { id, access_hash, file_reference, dc_id, duration, waveform, size } =>
                Media::Voice {
                id: *id,
                access_hash: *access_hash,
                file_reference: copy_bytes(file_reference.as_slice()),
                dc_id: *dc_id,
                duration: *duration,
                waveform: copy_bytes_opt(waveform),
                size: *size,
            },
            Media::Audio { id, access_hash, file_reference, dc_id, filename, duration, size } =>
                Media::Audio {
                id: *id,
                access_hash: *access_hash,
                file_reference: copy_bytes(file_reference.as_slice()),
                dc_id: *dc_id,
                filename: filename.clone(),
                duration: *duration,
                size: *size,
            },
            Media::File { id, access_hash, file_reference, dc_id, filename, size } => Media::File {
                id: *id,
                access_hash: *access_hash,
                file_reference: copy_bytes(file_reference.as_slice()),
                dc_id: *dc_id,
                filename: filename.clone(),
                size: *size,
            },
            Media::Sticker { id, access_hash, file_reference, dc_id, alt, preview } =>
                Media::Sticker {
                id: *id,
                access_hash: *access_hash,
                file_reference: copy_bytes(file_reference.as_slice()),
                dc_id: *dc_id,
                alt: alt.clone(),
                preview: copy_bytes_opt(preview),
            },
            Media::Unknown => Media::Unknown,
        }
    }
}

impl MediaView {
    /// What a download of this would be, or `None` when there is nothing to fetch.
    pub open spec fn kind(self) -> Option<MediaKind> {
        match self {
            MediaView::Photo { thumb_size, .. } => if thumb_size.len() == 0 {
                None
            } else {
                Some(MediaKind::Photo)
            },
            MediaView::Voice { .. } => Some(MediaKind::Voice),
            MediaView::Audio { .. } => Some(MediaKind::Audio),
            MediaView::File { .. } => Some(MediaKind::File),
            MediaView::Sticker { .. } => None,
            MediaView::Unknown => None,
        }
    }

    /// The bytes already in hand, if any.
    pub open spec fn preview(self) -> Option<Seq<u8>> {
        match self {
            MediaView::Photo { preview, .. } => preview,
            MediaView::Sticker { preview, .. } => preview,
            _ => None,
        }
    }

    /// Whether this arm can hold a preview at all.
    pub open spec fn has_slot(self) -> bool {
        self is Photo || self is Sticker
    }

    /// The same attachment holding another preview.
    pub open spec fn with_preview(self, p: Option<Seq<u8>>) -> MediaView {
        match self {
            MediaView::Photo { id, access_hash, file_reference, dc_id, thumb_size, size, .. } =>
                MediaView::Photo {
                id,
                access_hash,
                file_reference,
                dc_id,
                thumb_size,
                size,
                preview: p,
            },
            MediaView::Sticker { id, access_hash, file_reference, dc_id, alt, .. } =>
                MediaView::Sticker { id, access_hash, file_reference, dc_id, alt, preview: p },
            other => other,
        }
    }

    /// The id the media cache is keyed by, zero when there is none.
    pub open spec fn file_id(self) -> i64 {
        match self {
            MediaView::Photo { id, .. } => id,
            MediaView::Voice { id, .. } => id,
            MediaView::Audio { id, .. } => id,
            MediaView::File { id, .. } => id,
            MediaView::Sticker { id, .. } => id,
            MediaView::Unknown => 0,
        }
    }

    /// The data centre that holds the file, zero when there is none.
    pub open spec fn dc_id(self) -> i32 {
        match self {
            MediaView::Photo { dc_id, .. } => dc_id,
            MediaView::Voice { dc_id, .. } => dc_id,
            MediaView::Audio { dc_id, .. } => dc_id,
            MediaView::File { dc_id, .. } => dc_id,
            MediaView::Sticker { dc_id, .. } => dc_id,
            MediaView::Unknown => 0,
        }
    }
}

impl Media {
    /// What a download of this would be, or `None` when there is nothing to fetch.
    ///
    /// `None` for a sticker on purpose: fetching one would spend data on a file no codec here
    /// can open.
    pub fn kind(&self) -> (r: Option<MediaKind>)
        ensures
            r == self@.kind(),
    {
        match self {
            Media::Photo { thumb_size, .. } => if thumb_size.as_str().is_empty() {
                None
            } else {
                Some(MediaKind::Photo)
            },
            Media::Voice { .. } => Some(MediaKind::Voice),
            Media::Audio { .. } => Some(MediaKind::Audio),
            Media::File { .. } => Some(MediaKind::File),
            Media::Sticker { .. } => None,
            Media::Unknown => None,
        }
    }

    /// Whether choosing this should fetch anything.
    pub fn is_fetchable(&self) -> (r: bool)
        ensures
            r == self@.kind().is_some(),
    {
        self.kind().is_some()
    }

    /// Bytes already in hand that a codec would accept, if any.
    pub fn preview(&self) -> (r: Option<&[u8]>)
        ensures
            (match r {
                Some(b) => self@.preview() == Some(b@),
                None => self@.preview() is None,
            }),
    {
        match self {
            Media::Photo { preview, .. } => match preview {
                Some(b) => Some(b.as_slice()),
                None => None,
            },
            Media::Sticker { preview, .. } => match preview {
                Some(b) => Some(b.as_slice()),
                None => None,
            },
            _ => None,
        }
    }

    /// The photo or document id, which the media cache is keyed by.
    pub fn file_id(&self) -> (r: i64)
        ensures
            r == self@.file_id(),
    {
        match self {
            Media::Photo { id, .. } => *id,
            Media::Voice { id, .. } => *id,
            Media::Audio { id, .. } => *id,
            Media::File { id, .. } => *id,
            Media::Sticker { id, .. } => *id,
            Media::Unknown => 0,
        }
    }

    /// The slot the inline preview lives in, for the arms that have one.
    pub fn preview_slot(&mut self) -> (r: Option<&mut Option<Vec<u8>>>)
        ensures
            (match r {
                Some(slot) => old(self)@.has_slot() && proto::bytes_opt(*slot) == old(self)@.preview()
                    && final(self)@ == old(self)@.with_preview(proto::bytes_opt(*final(slot))),
                None => !old(self)@.has_slot() && *final(self) == *old(self),
            }),
    {
        match self {
            Media::Photo { preview, .. } => Some(preview),
            Media::Sticker { preview, .. } => Some(preview),
            _ => None,
        }
    }

    /// Which data centre holds the file.
    pub fn dc_id(&self) -> (r: i32)
        ensures
            r == self@.dc_id(),
    {
        match self {
            Media::Photo { dc_id, .. } => *dc_id,
            Media::Voice { dc_id, .. } => *dc_id,
            Media::Audio { dc_id, .. } => *dc_id,
            Media::File { dc_id, .. } => *dc_id,
            Media::Sticker { dc_id, .. } => *dc_id,
            Media::Unknown => 0,
        }
    }
}

impl Delivery {
    /// The ticks drawn for each state.
    pub open spec fn ticks(self) -> Seq<char> {
        match self {
            Delivery::Pending => "\u{00B7}"@,
            Delivery::Sent => "\u{2713}"@,
            Delivery::Read => "\u{2713}\u{2713}"@,
            Delivery::Failed => "!"@,
        }
    }

    /// The ticks drawn for this state.
    pub fn glyph(self) -> (r: &'static str)
        ensures
            r@ == self.ticks(),
    {
        match self {
            Delivery::Pending => "\u{00B7}",
            Delivery::Sent => "\u{2713}",
            Delivery::Read => "\u{2713}\u{2713}",
            Delivery::Failed => "!",
        }
    }
}

// ---- what a row of the chat list shows ------------------------------------------------------------

/// Whether a character separates words: the characters Unicode gives the property `White_Space`.
pub open spec fn white_space(c: char) -> bool {
    ||| '\u{9}' <= c <= '\u{d}'
    ||| c == ' '
    ||| c == '\u{85}'
    ||| c == '\u{a0}'
    ||| c == '\u{1680}'
    ||| '\u{2000}' <= c <= '\u{200a}'
    ||| c == '\u{2028}'
    ||| c == '\u{2029}'
    ||| c == '\u{202f}'
    ||| c == '\u{205f}'
    ||| c == '\u{3000}'
}

fn is_white_space(c: char) -> (r: bool)
    ensures
        r == white_space(c),
{
    ('\u{9}' <= c && c <= '\u{d}') || c == ' ' || c == '\u{85}' || c == '\u{a0}' || c == '\u{1680}'
        || ('\u{2000}' <= c && c <= '\u{200a}') || c == '\u{2028}' || c == '\u{2029}' || c
        == '\u{202f}' || c == '\u{205f}' || c == '\u{3000}'
}

/// The first character of each word, in order.
pub open spec fn word_starts(s: Seq<char>) -> Seq<char>
    decreases s.len(),
{
    if s.len() == 0 {
        seq![]
    } else {
        let rest = word_starts(s.drop_last());
        if !white_space(s.last()) && (s.len() == 1 || white_space(s[s.len() - 2])) {
            rest.push(s.last())
        } else {
            rest
        }
    }
}

/// What `char::to_uppercase` gives for a character: one character for most, more for some.
pub uninterp spec fn upper_case(c: char) -> Seq<char>;

/// Calls `char::to_uppercase` and hands its characters back as a string. The contract gives the
/// result a name and claims nothing else of it.
#[verifier::external_body]
fn to_upper(c: char) -> (r: String)
    ensures
        r@ == upper_case(c),
{
    c.to_uppercase().to_string()
}

/// The letters of an avatar, from the upper-cased starts of the first two words.
pub open spec fn joined_initials(first: Seq<char>, second: Seq<char>) -> Seq<char> {
    if first.len() + second.len() == 0 {
        seq!['?']
    } else {
        first + second
    }
}

/// The letters of an avatar, from the upper-cased starts of the first two words.
pub fn join_initials(first: &str, second: &str) -> (r: String)
    ensures
        r@ == joined_initials(first@, second@),
{
    if first.is_empty() && second.is_empty() {
        let mut s = String::new();
        s.push('?');
        assert(s@ =~= seq!['?']);
        s
    } else {
        let mut s = first.to_owned();
        s.append(second);
        s
    }
}

/// What the start of a word contributes: its upper case, or nothing where there is no such word.
pub open spec fn upper_start(starts: Seq<char>, i: int) -> Seq<char> {
    if i < starts.len() {
        upper_case(starts[i])
    } else {
        seq![]
    }
}

/// One step of the FNV-1a hash.
pub open spec fn fnv_step(h: u32, b: u8) -> u32 {
    (h ^ (b as u32)).wrapping_mul(0x0100_0193)
}

/// The FNV-1a hash of some bytes.
pub open spec fn fnv(b: Seq<u8>) -> u32
    decreases b.len(),
{
    if b.len() == 0 {
        0x811C_9DC5
    } else {
        fnv_step(fnv(b.drop_last()), b.last())
    }
}

/// What a chat row says of an attachment that has no caption.
pub open spec fn media_word(m: Option<MediaView>) -> Seq<char> {
    match m {
        Some(MediaView::Photo { .. }) => "Foto"@,
        Some(MediaView::Sticker { .. }) => "Sticker"@,
        Some(MediaView::Voice { .. }) => "Mensagem de voz"@,
        Some(MediaView::Audio { .. }) => "Audio"@,
        Some(MediaView::File { .. }) => "Arquivo"@,
        Some(MediaView::Unknown) => "Midia"@,
        None => ""@,
    }
}

impl ChatView {
    /// One or two initials for the avatar.
    pub open spec fn initials(self) -> Seq<char> {
        let starts = word_starts(self.name);
        joined_initials(upper_start(starts, 0), upper_start(starts, 1))
    }

    /// The avatar's tint.
    pub open spec fn color_seed(self) -> u32 {
        fnv(utf8::encode_utf8(self.name))
    }

    /// The line under the name: the last message's text, or what it carries.
    pub open spec fn preview(self) -> Seq<char> {
        if self.messages.len() == 0 {
            ""@
        } else if self.messages.last().text.len() > 0 {
            self.messages.last().text
        } else {
            media_word(self.messages.last().media)
        }
    }
}

impl Chat {
    /// One or two initials for the avatar, taken from word starts.
    pub fn initials(&self) -> (r: String)
        ensures
            r@ == self@.initials(),
    {
        let name = chars_of(self.name.as_str());
        let mut first: Option<char> = None;
        let mut second: Option<char> = None;
        let mut i: usize = 0;
        while i < name.len()
            invariant
                i <= name.len(),
                name@ == self.name@,
                (match first {
                    Some(c) => word_starts(name@.take(i as int)).len() > 0 && word_starts(
                        name@.take(i as int),
                    )[0] == c,
                    None => word_starts(name@.take(i as int)).len() == 0,
                }),
                (match second {
                    Some(c) => word_starts(name@.take(i as int)).len() > 1 && word_starts(
                        name@.take(i as int),
                    )[1] == c,
                    None => word_starts(name@.take(i as int)).len() <= 1,
                }),
            decreases name.len() - i,
        {
            assert(name@.take(i + 1).drop_last() =~= name@.take(i as int));
            let c = name[i];
            if !is_white_space(c) && (i == 0 || is_white_space(name[i - 1])) {
                if first.is_none() {
                    first = Some(c);
                } else if second.is_none() {
                    second = Some(c);
                }
            }
            i += 1;
        }
        assert(name@.take(name@.len() as int) =~= name@);
        let a = match first {
            Some(c) => to_upper(c),
            None => String::new(),
        };
        let b = match second {
            Some(c) => to_upper(c),
            None => String::new(),
        };
        assert(a@ =~= upper_start(word_starts(name@), 0));
        assert(b@ =~= upper_start(word_starts(name@), 1));
        join_initials(a.as_str(), b.as_str())
    }

    /// Stable per-contact avatar tint, so it survives restarts without storing anything.
    pub fn color_seed(&self) -> (r: u32)
        ensures
            r == self@.color_seed(),
    {
        let b = self.name.as_str().as_bytes();
        let mut h: u32 = 0x811C_9DC5;
        let mut i: usize = 0;
        while i < b.len()
            invariant
                i <= b@.len(),
                h == fnv(b@.take(i as int)),
            decreases b@.len() - i,
        {
            assert(b@.take(i + 1).drop_last() =~= b@.take(i as int));
            h = (h ^ (b[i] as u32)).wrapping_mul(0x0100_0193);
            i += 1;
        }
        assert(b@.take(b@.len() as int) =~= b@);
        h
    }

    /// The one line the chat list shows under the name. A caption wins over the label of an
    /// attachment: it is what the sender wrote.
    pub fn preview(&self) -> (r: &str)
        ensures
            r@ == self@.preview(),
    {
        if self.messages.len() == 0 {
            return "";
        }
        let m = &self.messages[self.messages.len() - 1];
        assert(self@.messages.last() == m@);
        if !m.text.as_str().is_empty() {
            return m.text.as_str();
        }
        match &m.media {
            Some(Media::Photo { .. }) => "Foto",
            Some(Media::Sticker { .. }) => "Sticker",
            Some(Media::Voice { .. }) => "Mensagem de voz",
            Some(Media::Audio { .. }) => "Audio",
            Some(Media::File { .. }) => "Arquivo",
            Some(Media::Unknown) => "Midia",
            None => "",
        }
    }
}

} // verus!
