//! What the protocol layer parsed, as plain values.
//!
//! The peers, dialogs and messages a reply carried. Whoever parses a reply also resolves the
//! two things only the parser can look up: the message a dialog previews, and the access hash
//! of its peer.

use vstd::prelude::*;

verus! {

/// Which sort of conversation a peer is.
#[derive(Clone, Copy, Debug, PartialEq, Eq, Structural)]
pub enum Kind {
    User,
    Chat,
    Channel,
}

/// A peer as replies name it.
#[derive(Clone, Copy, Debug, PartialEq, Eq, Structural)]
pub struct Peer {
    pub kind: Kind,
    pub id: i64,
}

/// One of the sizes a photo can be had in.
#[derive(Debug)]
pub struct SizeOption {
    /// The size's type letter, which a request for it names. Empty when it has none.
    pub kind: String,
    pub w: i32,
    pub h: i32,
    /// How many bytes a download of it is.
    pub size: i32,
    /// Bytes that came inside the message, if any did.
    pub inline: Option<Vec<u8>>,
    /// Whether the inline bytes are a picture a codec would take as they stand.
    pub complete: bool,
    /// Whether the file is a progressive JPEG.
    pub progressive: bool,
}

/// What a message carries besides its text.
#[derive(Debug)]
pub enum Media {
    Photo {
        id: i64,
        access_hash: i64,
        file_reference: Vec<u8>,
        dc_id: i32,
        sizes: Vec<SizeOption>,
    },
    Sticker {
        id: i64,
        access_hash: i64,
        file_reference: Vec<u8>,
        dc_id: i32,
        alt: String,
        thumbs: Vec<SizeOption>,
    },
    Document {
        id: i64,
        access_hash: i64,
        file_reference: Vec<u8>,
        dc_id: i32,
        filename: Option<String>,
        size: i64,
        duration: Option<i32>,
        is_voice: bool,
        waveform: Option<Vec<u8>>,
    },
    Unsupported,
}

/// A message as a reply carries it.
#[derive(Debug)]
pub struct Message {
    pub id: i32,
    pub peer: Peer,
    /// Whether this account sent it.
    pub out: bool,
    /// Unix seconds, UTC.
    pub date: i32,
    pub text: String,
    pub service: bool,
    pub media: Option<Media>,
}

/// One row of the dialog list as a reply carries it.
#[derive(Debug)]
pub struct Dialog {
    pub peer: Peer,
    pub top_message: i32,
    pub unread: i32,
    /// The message `top_message` names, when the reply carried it.
    pub top: Option<Message>,
    /// The peer's access hash, zero where it has none.
    pub access_hash: i64,
}

/// A title the reply gave a peer.
#[derive(Debug)]
pub struct Named {
    pub peer: Peer,
    pub title: String,
}

/// A parsed page of dialogs or of history.
#[derive(Debug)]
pub struct Dialogs {
    pub dialogs: Vec<Dialog>,
    pub messages: Vec<Message>,
    pub names: Vec<Named>,
    /// How many there are on the server, when the reply was only a slice of them.
    pub total: Option<i32>,
}

/// The values of a [`SizeOption`].
pub struct SizeView {
    pub kind: Seq<char>,
    pub w: i32,
    pub h: i32,
    pub size: i32,
    pub inline: Option<Seq<u8>>,
    pub complete: bool,
    pub progressive: bool,
}

impl View for SizeOption {
    type V = SizeView;

    open spec fn view(&self) -> SizeView {
        SizeView {
            kind: self.kind@,
            w: self.w,
            h: self.h,
            size: self.size,
            inline: match self.inline {
                Some(b) => Some(b@),
                None => None,
            },
            complete: self.complete,
            progressive: self.progressive,
        }
    }
}

/// The values of some sizes, in order.
pub open spec fn size_views(s: Seq<SizeOption>) -> Seq<SizeView> {
    Seq::new(s.len(), |i: int| s[i]@)
}

/// The values of a [`Media`].
pub enum MediaView {
    Photo {
        id: i64,
        access_hash: i64,
        file_reference: Seq<u8>,
        dc_id: i32,
        sizes: Seq<SizeView>,
    },
    Sticker {
        id: i64,
        access_hash: i64,
        file_reference: Seq<u8>,
        dc_id: i32,
        alt: Seq<char>,
        thumbs: Seq<SizeView>,
    },
    Document {
        id: i64,
        access_hash: i64,
        file_reference: Seq<u8>,
        dc_id: i32,
        filename: Option<Seq<char>>,
        size: i64,
        duration: Option<i32>,
        is_voice: bool,
        waveform: Option<Seq<u8>>,
    },
    Unsupported,
}

/// The contents of an optional byte string.
pub open spec fn bytes_opt(b: Option<Vec<u8>>) -> Option<Seq<u8>> {
    match b {
        Some(b) => Some(b@),
        None => None,
    }
}

/// The contents of an optional string.
pub open spec fn text_opt(s: Option<String>) -> Option<Seq<char>> {
    match s {
        Some(s) => Some(s@),
        None => None,
    }
}

impl View for Media {
    type V = MediaView;

    open spec fn view(&self) -> MediaView {
        match *self {
            Media::Photo { id, access_hash, file_reference, dc_id, sizes } => MediaView::Photo {
                id,
                access_hash,
                file_reference: file_reference@,
                dc_id,
                sizes: size_views(sizes@),
            },
            Media::Sticker { id, access_hash, file_reference, dc_id, alt, thumbs } =>
                MediaView::Sticker {
                id,
                access_hash,
                file_reference: file_reference@,
                dc_id,
                alt: alt@,
                thumbs: size_views(thumbs@),
            },
            Media::Document {
                id,
                access_hash,
                file_reference,
                dc_id,
                filename,
                size,
                duration,
                is_voice,
                waveform,
            } => MediaView::Document {
                id,
                access_hash,
                file_reference: file_reference@,
                dc_id,
                filename: text_opt(filename),
                size,
                duration,
                is_voice,
                waveform: bytes_opt(waveform),
            },
            Media::Unsupported => MediaView::Unsupported,
        }
    }
}

/// The values of a [`Message`].
pub struct MessageView {
    pub id: i32,
    pub peer: Peer,
    pub out: bool,
    pub date: i32,
    pub text: Seq<char>,
    pub service: bool,
    pub media: Option<MediaView>,
}

impl View for Message {
    type V = MessageView;

    open spec fn view(&self) -> MessageView {
        MessageView {
            id: self.id,
            peer: self.peer,
            out: self.out,
            date: self.date,
            text: self.text@,
            service: self.service,
            media: match self.media {
                Some(m) => Some(m@),
                None => None,
            },
        }
    }
}

/// The values of a [`Dialog`].
pub struct DialogView {
    pub peer: Peer,
    pub top_message: i32,
    pub unread: i32,
    pub top: Option<MessageView>,
    pub access_hash: i64,
}

impl View for Dialog {
    type V = DialogView;

    open spec fn view(&self) -> DialogView {
        DialogView {
            peer: self.peer,
            top_message: self.top_message,
            unread: self.unread,
            top: match self.top {
                Some(m) => Some(m@),
                None => None,
            },
            access_hash: self.access_hash,
        }
    }
}

/// The values of some dialogs, in order.
pub open spec fn dialog_views(s: Seq<Dialog>) -> Seq<DialogView> {
    Seq::new(s.len(), |i: int| s[i]@)
}

/// The values of some messages, in order.
pub open spec fn message_views(s: Seq<Message>) -> Seq<MessageView> {
    Seq::new(s.len(), |i: int| s[i]@)
}

/// The names of a page, in order.
pub open spec fn name_views(s: Seq<Named>) -> Seq<(Peer, Seq<char>)> {
    Seq::new(s.len(), |i: int| (s[i].peer, s[i].title@))
}

/// The values of a page: its dialogs, its messages and its names, each in order.
pub struct PageView {
    pub dialogs: Seq<DialogView>,
    pub messages: Seq<MessageView>,
    pub names: Seq<(Peer, Seq<char>)>,
    pub total: Option<i32>,
}

impl View for Dialogs {
    type V = PageView;

    open spec fn view(&self) -> PageView {
        PageView {
            dialogs: dialog_views(self.dialogs@),
            messages: message_views(self.messages@),
            names: name_views(self.names@),
            total: self.total,
        }
    }
}

} // verus!
