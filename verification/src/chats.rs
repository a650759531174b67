//! The list of dialogs.

use crate::model::{Chat, ChatView, Store, StoreView};
use crate::text;
use crate::ui;
use crate::ui::{
    paint, xywh, Align, Answer, Ask, Font, Frame, Handled, Ink, Key, ListState, Moved, Op, OpView,
    Rect, Softkey,
};
use vstd::prelude::*;
use vstd::string::*;

pub use crate::text::itoa;

verus! {

/// The list of dialogs on screen.
#[derive(Debug)]
pub struct ChatList {
    pub state: ListState,
}

/// What a key on the list asks the application to do.
#[derive(Clone, Copy, Debug, PartialEq, Eq, Structural)]
pub enum ChatListAction {
    Open(usize),
    Exit,
    /// The bottom was reached; the next page is wanted.
    LoadMore,
    /// The list is wanted again, from the top.
    Refresh,
    Nothing,
}

/// Whether a cursor stands on the last of some rows, with the list scrolled to its end.
pub open spec fn at_the_end(state: ListState, count: int, row_h: int, viewport_h: int) -> bool {
    let below = count * row_h - viewport_h;
    state.selected == count - 1 && state.scroll >= (if below > 0 {
        below
    } else {
        0
    })
}

/// What a key does to the list: at its end, down asks for more; anything else is the list's own.
pub open spec fn list_keyed(
    state: ListState,
    key: Key,
    count: int,
    row_h: int,
    viewport_h: int,
    answer: Answer,
) -> (ListState, Handled, ChatListAction) {
    if list_ask(state, key, count, row_h, viewport_h) == Ask::Nothing {
        (state, Handled::Consumed, ChatListAction::LoadMore)
    } else {
        match answer {
            Answer::Moved(m) => (m.state, m.handled, ChatListAction::Nothing),
            _ => (state, Handled::Ignored, ChatListAction::Nothing),
        }
    }
}

/// What a key on the list has to ask the toolkit.
pub open spec fn list_ask(
    state: ListState,
    key: Key,
    count: int,
    row_h: int,
    viewport_h: int,
) -> Ask {
    if key == Key::Down && count > 0 && at_the_end(state, count, row_h, viewport_h) {
        Ask::Nothing
    } else {
        Ask::List
    }
}

/// What a key that the list itself did not take asks for.
pub open spec fn activated(selected: usize, key: Key, count: int) -> ChatListAction {
    if key == Key::Select || key == Key::Softkey(Softkey::Middle) || key == Key::Call {
        if count == 0 {
            ChatListAction::Nothing
        } else {
            ChatListAction::Open(selected)
        }
    } else if key == Key::Softkey(Softkey::Left) {
        ChatListAction::Refresh
    } else if key == Key::Softkey(Softkey::Right) {
        ChatListAction::Exit
    } else {
        ChatListAction::Nothing
    }
}

impl ChatList {
    /// A list at its top.
    pub fn new() -> (r: ChatList)
        ensures
            r.state == (ListState { selected: 0, scroll: 0 }),
    {
        ChatList { state: ListState::new() }
    }

    /// What has to be asked of the toolkit before [`ChatList::handle_key`] can say what a key does.
    pub fn asks(&self, key: Key, store: &Store, row_h: i32, viewport_h: i32) -> (r: Ask)
        ensures
            r == list_ask(
                self.state,
                key,
                store@.chats.len() as int,
                row_h as int,
                viewport_h as int,
            ),
    {
        let count: usize = store.chats.len();
        if key == Key::Down && count > 0 {
            assert(-0x1_0000_0000_0000_0000_0000_0000 <= count * row_h
                <= 0x1_0000_0000_0000_0000_0000_0000) by (nonlinear_arith)
                requires
                    0 <= count <= 0xffff_ffff_ffff_ffff,
                    -0x8000_0000 <= row_h < 0x8000_0000,
            ;
            let content_h: i128 = count as i128 * row_h as i128;
            let below: i128 = content_h - viewport_h as i128;
            let bottom: i128 = if below > 0 {
                below
            } else {
                0
            };
            if self.state.selected == count - 1 && self.state.scroll as i128 >= bottom {
                return Ask::Nothing;
            }
        }
        Ask::List
    }

    /// What a key does, given what the toolkit's list made of it.
    pub fn handle_key(
        &mut self,
        key: Key,
        store: &Store,
        row_h: i32,
        viewport_h: i32,
        answer: Answer,
    ) -> (r: (Handled, ChatListAction))
        ensures
            (final(self).state, r.0, r.1) == list_keyed(
                old(self).state,
                key,
                store@.chats.len() as int,
                row_h as int,
                viewport_h as int,
                answer,
            ),
    {
        if self.asks(key, store, row_h, viewport_h) == Ask::Nothing {
            return (Handled::Consumed, ChatListAction::LoadMore);
        }
        match answer {
            Answer::Moved(m) => {
                self.state = m.state;
                (m.handled, ChatListAction::Nothing)
            },
            _ => (Handled::Ignored, ChatListAction::Nothing),
        }
    }

    /// What a key that the list itself did not take asks for.
    pub fn activate(&self, key: Key, store: &Store) -> (r: ChatListAction)
        ensures
            r == activated(self.state.selected, key, store@.chats.len() as int),
    {
        match key {
            Key::Select | Key::Softkey(Softkey::Middle) | Key::Call => {
                if store.chats.len() == 0 {
                    ChatListAction::Nothing
                } else {
                    ChatListAction::Open(self.state.selected)
                }
            },
            Key::Softkey(Softkey::Left) => ChatListAction::Refresh,
            Key::Softkey(Softkey::Right) => ChatListAction::Exit,
            _ => ChatListAction::Nothing,
        }
    }
}

// ---- drawing --------------------------------------------------------------------------------------

/// What the toolkit says of the sizes a row is drawn with.
#[derive(Clone, Copy, Debug, PartialEq, Eq, Structural)]
pub struct RowLook {
    /// The inset of a row.
    pub pad: i32,
    /// How tall a line of the small font is.
    pub small_h: i32,
    /// How tall a line of the strong font is.
    pub strong_h: i32,
    /// How wide the tick in front of a message of one's own is.
    pub tick_w: i32,
}

/// What the toolkit measured of one row.
#[derive(Clone, Copy, Debug, PartialEq, Eq, Structural)]
pub struct RowMeasure {
    /// How wide the time is.
    pub time_w: i32,
    /// How wide the badge came out.
    pub badge_w: i32,
}

impl RowLook {
    /// Whether no size is negative.
    pub open spec fn sound(self) -> bool {
        0 <= self.pad && 0 <= self.small_h && 0 <= self.strong_h && 0 <= self.tick_w
    }
}

impl RowMeasure {
    /// Whether no size is negative.
    pub open spec fn sound(self) -> bool {
        0 <= self.time_w && 0 <= self.badge_w
    }
}

/// What a badge says: the number of unread messages, or that there are more than it holds.
pub open spec fn badge_words(unread: u32) -> Seq<char> {
    if unread > 999 {
        "999+"@
    } else {
        text::decimal(unread as nat)
    }
}

/// What a badge says.
pub fn badge_label(unread: u32) -> (r: String)
    ensures
        r@ == badge_words(unread),
{
    if unread > 999 {
        "999+".to_owned()
    } else {
        itoa(unread)
    }
}

/// The colour of a text on a row: one on the selection, or the one given.
pub open spec fn ink_on(selected: bool, ink: Ink) -> Ink {
    if selected {
        Ink::SelectionText
    } else {
        ink
    }
}

/// The right edge the preview of a row stops at: before the badge, where there is one.
pub open spec fn preview_right(r: Rect, c: ChatView, look: RowLook, m: RowMeasure) -> int {
    r.x1 - look.pad - if c.unread > 0 {
        m.badge_w + look.pad
    } else {
        0
    }
}

/// Whether every coordinate of a painted row can be said in a number.
pub open spec fn row_fits(r: Rect, c: ChatView, look: RowLook, m: RowMeasure) -> bool {
    let text_x = r.x0 + look.pad + (r.h() - 8) + look.pad;
    &&& r.h() <= i32::MAX
    &&& i32::MIN <= r.x0 - 8
    &&& r.x0 + look.pad <= i32::MAX
    &&& text_x <= i32::MAX
    &&& c.last_outgoing ==> text_x + look.tick_w <= i32::MAX
    &&& i32::MIN <= r.x1 - look.pad - m.time_w - look.pad
    &&& i32::MIN <= preview_right(r, c, look, m)
    &&& r.y0 + 4 + look.small_h <= i32::MAX
    &&& r.y0 + 3 + look.strong_h <= i32::MAX
    &&& i32::MIN <= r.y1 - 4 - look.small_h
    &&& c.unread > 0 ==> i32::MIN <= r.y1 - 6 - look.small_h
}

/// A row of the list, as it is painted: its ground, the avatar, the time and the name before it, the
/// badge, and the preview behind a tick where the last message is one's own.
pub open spec fn row_ops(r: Rect, c: ChatView, selected: bool, look: RowLook, m: RowMeasure) -> Seq<
    OpView,
> {
    let pad = look.pad;
    let side = r.h() - 8;
    let text_x = r.x0 + pad + side + pad;
    let right = r.x1 - pad;
    let line_y = r.y1 - 4 - look.small_h;
    let stop = preview_right(r, c, look, m);
    let ground = if selected {
        OpView::Selected { rect: r }
    } else {
        OpView::Rule {
            y: (r.y1 - 1) as i32,
            x0: (r.x0 + pad) as i32,
            x1: r.x1,
            ink: Ink::Divider,
        }
    };
    let head = seq![
        ground,
        OpView::Avatar {
            rect: Rect::boxed(r.x0 + pad, r.y0 + 4, side, side),
            initials: c.initials(),
            seed: c.color_seed(),
        },
        OpView::Text {
            rect: Rect::edges(right - m.time_w, r.y0 + 4, right, r.y0 + 4 + look.small_h),
            text: c.time,
            font: Font::Small,
            ink: ink_on(selected, Ink::Dim),
            align: Align::End,
        },
        OpView::Text {
            rect: Rect::edges(
                text_x,
                r.y0 + 3,
                right - m.time_w - pad,
                r.y0 + 3 + look.strong_h,
            ),
            text: c.name,
            font: Font::Strong,
            ink: ink_on(selected, Ink::Text),
            align: Align::Start,
        },
    ];
    let badge = if c.unread > 0 {
        seq![
            OpView::Badge {
                right: right as i32,
                top: (r.y1 - 4 - (look.small_h + 2)) as i32,
                label: badge_words(c.unread),
                selected,
            },
        ]
    } else {
        seq![]
    };
    let preview = if c.last_outgoing {
        seq![
            OpView::Text {
                rect: Rect::edges(text_x, line_y, text_x + look.tick_w, r.y1 - 4),
                text: "\u{2713} "@,
                font: Font::Small,
                ink: ink_on(selected, Ink::Accent),
                align: Align::Start,
            },
            OpView::Text {
                rect: Rect::edges(text_x + look.tick_w, line_y, stop, r.y1 - 4),
                text: c.preview(),
                font: Font::Small,
                ink: ink_on(selected, Ink::Dim),
                align: Align::Start,
            },
        ]
    } else {
        seq![
            OpView::Text {
                rect: Rect::edges(text_x, line_y, stop, r.y1 - 4),
                text: c.preview(),
                font: Font::Small,
                ink: ink_on(selected, Ink::Dim),
                align: Align::Start,
            },
        ]
    };
    head + badge + preview
}

fn inked(selected: bool, ink: Ink) -> (r: Ink)
    ensures
        r == ink_on(selected, ink),
{
    if selected {
        Ink::SelectionText
    } else {
        ink
    }
}

/// Paint a row of the list after what is already to be painted.
pub fn draw_row(
    ops: &mut Vec<Op>,
    r: Rect,
    chat: &Chat,
    selected: bool,
    look: RowLook,
    m: RowMeasure,
)
    requires
        r.y0 <= r.y1,
        look.sound(),
        m.sound(),
        row_fits(r, chat@, look, m),
    ensures
        ui::op_views(final(ops)@) == ui::op_views(old(ops)@) + row_ops(
            r,
            chat@,
            selected,
            look,
            m,
        ),
{
    let ghost start = ui::op_views(ops@);
    let pad: i32 = look.pad;
    if selected {
        paint(ops, Op::Selected { rect: r });
    } else {
        // None under the selection, so that the highlight reads as one block.
        paint(ops, Op::Rule { y: r.y1 - 1, x0: r.x0 + pad, x1: r.x1, ink: Ink::Divider });
    }
    let side: i32 = r.y1 - r.y0 - 8;
    let avatar = xywh(r.x0 + pad, r.y0 + 4, side, side);
    paint(
        ops,
        Op::Avatar { rect: avatar, initials: chat.initials(), seed: chat.color_seed() },
    );
    let text_x: i32 = avatar.x1 + pad;
    let right: i32 = r.x1 - pad;
    // The time first: it is as wide as it is, and sets the ceiling for the name.
    paint(
        ops,
        Op::Text {
            rect: Rect {
                x0: right - m.time_w,
                y0: r.y0 + 4,
                x1: right,
                y1: r.y0 + 4 + look.small_h,
            },
            text: chat.time.clone(),
            font: Font::Small,
            ink: inked(selected, Ink::Dim),
            align: Align::End,
        },
    );
    paint(
        ops,
        Op::Text {
            rect: Rect {
                x0: text_x,
                y0: r.y0 + 3,
                x1: right - m.time_w - pad,
                y1: r.y0 + 3 + look.strong_h,
            },
            text: chat.name.clone(),
            font: Font::Strong,
            ink: inked(selected, Ink::Text),
            align: Align::Start,
        },
    );
    let mut stop: i32 = right;
    if chat.unread > 0 {
        paint(
            ops,
            Op::Badge {
                right,
                top: r.y1 - 6 - look.small_h,
                label: badge_label(chat.unread),
                selected,
            },
        );
        stop = right - pad - m.badge_w;
    }
    let line_y: i32 = r.y1 - 4 - look.small_h;
    let y1: i32 = r.y1 - 4;
    let mut from: i32 = text_x;
    if chat.last_outgoing {
        from = text_x + look.tick_w;
        paint(
            ops,
            Op::Text {
                rect: Rect { x0: text_x, y0: line_y, x1: from, y1 },
                text: "\u{2713} ".to_owned(),
                font: Font::Small,
                ink: inked(selected, Ink::Accent),
                align: Align::Start,
            },
        );
    }
    paint(
        ops,
        Op::Text {
            rect: Rect { x0: from, y0: line_y, x1: stop, y1 },
            text: chat.preview().to_owned(),
            font: Font::Small,
            ink: inked(selected, Ink::Dim),
            align: Align::Start,
        },
    );
    assert(ui::op_views(ops@) =~= start + row_ops(r, chat@, selected, look, m));
}

/// A row the toolkit says is visible: which chat, where, and what was measured of it.
#[derive(Clone, Copy, Debug, PartialEq, Eq, Structural)]
pub struct VisibleRow {
    pub index: usize,
    pub rect: Rect,
    pub measure: RowMeasure,
}

/// Whether every visible row is that of a chat, with no negative measure and no coordinate
/// beyond what a number can say.
pub open spec fn paintable(chats: Seq<ChatView>, visible: Seq<VisibleRow>, look: RowLook) -> bool {
    forall|i: int|
        0 <= i < visible.len() ==> {
            let v = #[trigger] visible[i];
            &&& v.index < chats.len()
            &&& v.rect.y0 <= v.rect.y1
            &&& v.measure.sound()
            &&& row_fits(v.rect, chats[v.index as int], look, v.measure)
        }
}

/// The visible rows as they are painted, top to bottom.
pub open spec fn rows_ops(
    chats: Seq<ChatView>,
    selected: usize,
    visible: Seq<VisibleRow>,
    look: RowLook,
) -> Seq<OpView>
    decreases visible.len(),
{
    if visible.len() == 0 {
        seq![]
    } else {
        let v = visible.last();
        rows_ops(chats, selected, visible.drop_last(), look) + row_ops(
            v.rect,
            chats[v.index as int],
            v.index == selected,
            look,
            v.measure,
        )
    }
}

/// What the title bar of the list says besides its name.
pub open spec fn detail_words(s: StoreView) -> Seq<char> {
    if s.dialogs_loading {
        "carregando…"@
    } else {
        s.status
    }
}

/// The list as it is painted.
pub open spec fn list_ops(
    state: ListState,
    s: StoreView,
    frame: Frame,
    visible: Seq<VisibleRow>,
    look: RowLook,
) -> Seq<OpView> {
    let body = if s.chats.len() == 0 {
        seq![OpView::Placeholder { rect: frame.content, text: "Nenhuma conversa"@ }]
    } else {
        seq![OpView::Clip { rect: frame.content }] + rows_ops(
            s.chats,
            state.selected,
            visible,
            look,
        ) + seq![OpView::Unclip, OpView::Scrollbar { rect: frame.content }]
    };
    seq![
        OpView::Clear,
        OpView::TitleBar { rect: frame.title, title: "Telegram"@, detail: Some(detail_words(s)) },
    ] + body + seq![
        OpView::SoftkeyBar {
            rect: frame.softkeys,
            labels: seq![
                Some(
                    if s.dialogs_loading {
                        "..."
                    } else {
                        "Atualizar"
                    },
                ),
                Some("Abrir"),
                Some("Sair"),
            ],
        },
    ]
}

impl ChatList {
    /// Paint the list. The toolkit says which rows are visible, and where.
    pub fn draw(
        &self,
        store: &Store,
        frame: Frame,
        visible: &Vec<VisibleRow>,
        look: RowLook,
    ) -> (r: Vec<Op>)
        requires
            look.sound(),
            paintable(store@.chats, visible@, look),
        ensures
            ui::op_views(r@) == list_ops(self.state, store@, frame, visible@, look),
    {
        let mut ops: Vec<Op> = Vec::new();
        paint(&mut ops, Op::Clear);
        let detail = if store.dialogs_loading {
            "carregando…".to_owned()
        } else {
            store.status.clone()
        };
        paint(
            &mut ops,
            Op::TitleBar { rect: frame.title, title: "Telegram".to_owned(), detail: Some(detail) },
        );
        let ghost head = ui::op_views(ops@);
        assert(head =~= seq![
            OpView::Clear,
            OpView::TitleBar {
                rect: frame.title,
                title: "Telegram"@,
                detail: Some(detail_words(store@)),
            },
        ]);
        if store.chats.len() == 0 {
            paint(
                &mut ops,
                Op::Placeholder { rect: frame.content, text: "Nenhuma conversa".to_owned() },
            );
        } else {
            // Clipped, so that a row across an edge does not bleed into the furniture.
            paint(&mut ops, Op::Clip { rect: frame.content });
            let ghost before = ui::op_views(ops@);
            let mut i: usize = 0;
            assert(visible@.take(0) =~= seq![]);
            while i < visible.len()
                invariant
                    i <= visible.len(),
                    look.sound(),
                    paintable(store@.chats, visible@, look),
                    ui::op_views(ops@) == before + rows_ops(
                        store@.chats,
                        self.state.selected,
                        visible@.take(i as int),
                        look,
                    ),
                decreases visible.len() - i,
            {
                let v = visible[i];
                let ghost painted = rows_ops(
                    store@.chats,
                    self.state.selected,
                    visible@.take(i as int),
                    look,
                );
                assert(visible@[i as int].index < store@.chats.len());
                assert(store@.chats[v.index as int] == store.chats@[v.index as int]@);
                draw_row(
                    &mut ops,
                    v.rect,
                    &store.chats[v.index],
                    v.index == self.state.selected,
                    look,
                    v.measure,
                );
                assert(visible@.take(i + 1).drop_last() =~= visible@.take(i as int));
                assert(visible@.take(i + 1).last() == v);
                let ghost one = row_ops(
                    v.rect,
                    store@.chats[v.index as int],
                    v.index == self.state.selected,
                    look,
                    v.measure,
                );
                assert(before + painted + one =~= before + (painted + one));
                i += 1;
            }
            assert(visible@.take(i as int) =~= visible@);
            paint(&mut ops, Op::Unclip);
            paint(&mut ops, Op::Scrollbar { rect: frame.content });
        }
        let refresh: &'static str = if store.dialogs_loading {
            "..."
        } else {
            "Atualizar"
        };
        let labels = [Some(refresh), Some("Abrir"), Some("Sair")];
        assert(labels@ =~= seq![Some(refresh), Some("Abrir"), Some("Sair")]);
        paint(&mut ops, Op::SoftkeyBar { rect: frame.softkeys, labels });
        assert(ui::op_views(ops@) =~= list_ops(self.state, store@, frame, visible@, look));
        ops
    }
}

// ---- laws -----------------------------------------------------------------------------------------

/// Pressing down past the end never moves the cursor off the list: at the end it asks for more and
/// stays, and elsewhere it goes where the toolkit's list says.
pub proof fn down_at_the_end_stays(
    state: ListState,
    count: int,
    row_h: int,
    viewport_h: int,
    answer: Answer,
)
    requires
        count > 0,
        at_the_end(state, count, row_h, viewport_h),
    ensures
        list_keyed(state, Key::Down, count, row_h, viewport_h, answer) == (
            state,
            Handled::Consumed,
            ChatListAction::LoadMore,
        ),
{
}

/// No other key than down asks for the next page.
pub proof fn only_down_asks_for_more(
    state: ListState,
    key: Key,
    count: int,
    row_h: int,
    viewport_h: int,
    answer: Answer,
)
    requires
        list_keyed(state, key, count, row_h, viewport_h, answer).2 == ChatListAction::LoadMore,
    ensures
        key == Key::Down,
        count > 0,
{
}

/// An empty list opens nothing, and can still be left and asked for again.
pub proof fn an_empty_list_can_be_left(selected: usize, key: Key)
    ensures
        !(activated(selected, key, 0) is Open),
        activated(selected, Key::Softkey(Softkey::Right), 0) == ChatListAction::Exit,
        activated(selected, Key::Softkey(Softkey::Left), 0) == ChatListAction::Refresh,
{
}

} // verus!
