//! The chat list, described rather than drawn.
//!
//! A row carries the few small values the list draws and nothing else: a chat holds its messages and
//! their pictures, and copying those for each change of the screen is what a small heap cannot take.

use crate::model::{Chat, ChatView, Store};
use crate::ui;
use crate::ui::{Edges, Ink, Key, Metrics, Slot, Softkeys};
use std::rc::Rc;
use vstd::prelude::*;
use vstd::string::*;

verus! {

/// What the list asks the application to do.
#[derive(Clone, Copy, Debug, PartialEq, Eq, Structural)]
pub enum Msg {
    /// Ask the server for the list again.
    Refresh,
    /// Open the menu.
    Options,
    /// Open the chat under the cursor.
    Open,
    /// Leave the application.
    Quit,
    /// The cursor moved to a row.
    Select(usize),
    /// The cursor reached the bottom, and there may be more.
    LoadMore,
}

/// One row: what the list draws of a chat.
#[derive(Debug, PartialEq, Eq)]
pub struct ChatRow {
    pub initials: String,
    pub name: String,
    pub time: String,
    /// The line under the name: the last message, or a word for what it carries.
    pub preview: String,
    pub unread: u32,
    /// Whether the last message is one's own.
    pub last_outgoing: bool,
    /// The tint of the avatar.
    pub color_seed: u32,
}

/// The values of a [`ChatRow`].
pub struct RowView {
    pub initials: Seq<char>,
    pub name: Seq<char>,
    pub time: Seq<char>,
    pub preview: Seq<char>,
    pub unread: u32,
    pub last_outgoing: bool,
    pub color_seed: u32,
}

impl View for ChatRow {
    type V = RowView;

    open spec fn view(&self) -> RowView {
        RowView {
            initials: self.initials@,
            name: self.name@,
            time: self.time@,
            preview: self.preview@,
            unread: self.unread,
            last_outgoing: self.last_outgoing,
            color_seed: self.color_seed,
        }
    }
}

/// The row of a chat.
pub open spec fn row_of(c: ChatView) -> RowView {
    RowView {
        initials: c.initials(),
        name: c.name,
        time: c.time,
        preview: c.preview(),
        unread: c.unread,
        last_outgoing: c.last_outgoing,
        color_seed: c.color_seed(),
    }
}

/// The values of some rows, in order.
pub open spec fn row_views(s: Seq<ChatRow>) -> Seq<RowView> {
    Seq::new(s.len(), |i: int| s[i]@)
}

/// The rows of some chats, in order.
pub open spec fn rows_of(s: Seq<ChatView>) -> Seq<RowView> {
    Seq::new(s.len(), |i: int| row_of(s[i]))
}

impl ChatRow {
    /// The row of a chat.
    pub fn of(chat: &Chat) -> (r: ChatRow)
        ensures
            r@ == row_of(chat@),
    {
        ChatRow {
            initials: chat.initials(),
            name: chat.name.clone(),
            time: chat.time.clone(),
            preview: chat.preview().to_owned(),
            unread: chat.unread,
            last_outgoing: chat.last_outgoing,
            color_seed: chat.color_seed(),
        }
    }
}

/// The rows of the list, to be shared by the screens described from them: made when the list changes,
/// not each time the screen does.
pub fn rows(store: &Store) -> (r: Rc<Vec<ChatRow>>)
    ensures
        row_views(r@) == rows_of(store@.chats),
{
    let mut out: Vec<ChatRow> = Vec::new();
    let ghost target = rows_of(store@.chats);
    let mut i: usize = 0;
    while i < store.chats.len()
        invariant
            i <= store.chats.len(),
            target == rows_of(store@.chats),
            row_views(out@) =~= target.take(i as int),
        decreases store.chats.len() - i,
    {
        let ghost before = out@;
        let row = ChatRow::of(&store.chats[i]);
        assert(store@.chats[i as int] == store.chats@[i as int]@);
        out.push(row);
        assert(row_views(out@) =~= row_views(before).push(target[i as int]));
        i += 1;
    }
    assert(target.take(i as int) =~= target);
    Rc::new(out)
}

/// What the list is described as.
#[derive(Debug)]
pub enum Body {
    /// Nothing to list, which is said: a blank panel looks like a screen that failed.
    Empty(&'static str),
    List { rows: Rc<Vec<ChatRow>>, selected: usize, row_h: i32 },
}

/// The list as it is described to the toolkit.
#[derive(Debug)]
pub struct Listing {
    pub title: &'static str,
    pub detail: String,
    pub body: Body,
    pub labels: [Option<&'static str>; 3],
}

/// Whether a listing shows some rows, with the cursor on one of them.
pub open spec fn lists(
    r: Listing,
    rows: Seq<RowView>,
    loading: bool,
    status: Seq<char>,
    selected: usize,
    m: Metrics,
) -> bool {
    &&& r.title == "Telegram"
    &&& r.detail@ == (if loading {
        "carregando…"@
    } else {
        status
    })
    &&& if rows.len() == 0 {
        r.body == Body::Empty("Nenhuma conversa")
    } else {
        r.body matches Body::List { rows: x, selected: i, row_h: h } && row_views(x@) == rows && i
            == selected && h == m.row_h
    }
    &&& r.labels@ == ui::labels_of(bar(loading))
}

/// Describe the list. `selected` is the application's: it decides what is opened.
pub fn view(rows: Rc<Vec<ChatRow>>, loading: bool, status: &str, selected: usize, m: &Metrics) -> (r:
    Listing)
    ensures
        lists(r, row_views(rows@), loading, status@, selected, *m),
{
    let detail = if loading {
        "carregando…".to_owned()
    } else {
        status.to_owned()
    };
    let body = if rows.len() == 0 {
        Body::Empty("Nenhuma conversa")
    } else {
        Body::List { rows, selected, row_h: row_height(m) }
    };
    let labels = softkeys(loading).labels();
    Listing { title: "Telegram", detail, body, labels }
}

/// A row as it is described to the toolkit: two lines beside an avatar, the name and the time over
/// the preview and the badge.
#[derive(Clone, Copy, Debug, PartialEq, Eq, Structural)]
pub struct RowDesc {
    pub name_ink: Ink,
    /// The colour of the time and of the preview.
    pub sub_ink: Ink,
    /// The colour of the tick in front of the preview, where there is one.
    pub tick: Option<Ink>,
    /// How many messages the badge counts, where there is one.
    pub badge: Option<u32>,
    /// Whether a line separates the row from the next, and how far in it starts.
    pub border: Option<i32>,
    /// The side of the avatar.
    pub avatar: i32,
    /// The space between the pieces of the row, and at its ends.
    pub pad: i32,
    /// The space around the two lines, and over the time.
    pub lines: Edges,
    pub time: Edges,
}

/// A row as it is described: under the highlight every line takes the selection's colour and the
/// separator goes, so that the row reads as one block.
pub open spec fn described(row: RowView, selected: bool, m: Metrics) -> RowDesc {
    RowDesc {
        name_ink: if selected {
            Ink::SelectionText
        } else {
            Ink::Text
        },
        sub_ink: if selected {
            Ink::SelectionText
        } else {
            Ink::Dim
        },
        tick: if row.last_outgoing {
            Some(
                if selected {
                    Ink::SelectionText
                } else {
                    Ink::Accent
                },
            )
        } else {
            None
        },
        badge: if row.unread > 0 {
            Some(row.unread)
        } else {
            None
        },
        border: if selected {
            None
        } else {
            Some(m.pad)
        },
        avatar: (m.row_h - 8) as i32,
        pad: m.pad,
        lines: Edges { left: 0, top: 3, right: 0, bottom: 4 },
        time: Edges { left: 0, top: 1, right: 0, bottom: 0 },
    }
}

/// Describe a row.
pub fn chat_row(row: &ChatRow, selected: bool, m: &Metrics) -> (r: RowDesc)
    requires
        i32::MIN <= m.row_h - 8,
    ensures
        r == described(row@, selected, *m),
{
    let (name_ink, sub_ink, tick_ink): (Ink, Ink, Ink) = if selected {
        (Ink::SelectionText, Ink::SelectionText, Ink::SelectionText)
    } else {
        (Ink::Text, Ink::Dim, Ink::Accent)
    };
    RowDesc {
        name_ink,
        sub_ink,
        tick: if row.last_outgoing {
            Some(tick_ink)
        } else {
            None
        },
        badge: if row.unread > 0 {
            Some(row.unread)
        } else {
            None
        },
        border: if selected {
            None
        } else {
            Some(m.pad)
        },
        avatar: row_height(m) - 8,
        pad: pad(m),
        lines: Edges { left: 0, top: 3, right: 0, bottom: 4 },
        time: Edges { left: 0, top: 1, right: 0, bottom: 0 },
    }
}

/// The inset of a row: the theme's.
pub fn pad(m: &Metrics) -> (r: i32)
    ensures
        r == m.pad,
{
    m.pad
}

/// The height of a row: the theme's.
pub fn row_height(m: &Metrics) -> (r: i32)
    ensures
        r == m.row_h,
{
    m.row_h
}

/// The bar. The left label is the only progress this screen shows while a page is in flight.
pub open spec fn bar(loading: bool) -> Softkeys<Msg> {
    Softkeys {
        options: Some(
            (
                if loading {
                    "..."
                } else {
                    "Opções"
                },
                Msg::Options,
            ),
        ),
        action: Some(("Abrir", Msg::Open)),
        back: Some(("Sair", Msg::Quit)),
    }
}

/// The bar.
pub fn softkeys(loading: bool) -> (r: Softkeys<Msg>)
    ensures
        r == bar(loading),
{
    let left: &'static str = if loading {
        "..."
    } else {
        "Opções"
    };
    Softkeys::new().options(left, Msg::Options).action("Abrir", Msg::Open).back("Sair", Msg::Quit)
}

/// What a key means on this screen.
pub open spec fn meaning(loading: bool, key: Key, slot: Option<Slot>) -> Option<Msg> {
    if key == Key::Call {
        Some(Msg::Open)
    } else {
        bar(loading).answer(slot)
    }
}

/// What a key means on this screen, before the list sees it: what the bar says, and the green key,
/// which opens. The arrows are the list's own. `slot` is the slot of the bar the key presses.
pub fn on_key(loading: bool, key: Key, slot: Option<Slot>) -> (r: Option<Msg>)
    ensures
        r == meaning(loading, key, slot),
{
    if key == Key::Call {
        return Some(Msg::Open);
    }
    softkeys(loading).dispatch(slot)
}

/// A row holds what the list draws of its chat, whatever else the chat holds: two chats that look
/// alike in the list have the same row.
pub proof fn a_row_carries_what_the_list_draws(a: ChatView, b: ChatView)
    requires
        a.name == b.name,
        a.time == b.time,
        a.unread == b.unread,
        a.last_outgoing == b.last_outgoing,
        a.preview() == b.preview(),
    ensures
        row_of(a) == row_of(b),
{
}

/// Keys that press no slot of the bar are left to the list, all but the green one.
pub proof fn navigation_is_left_to_the_list(loading: bool, key: Key)
    requires
        key != Key::Call,
    ensures
        meaning(loading, key, None) is None,
{
}

} // verus!
