//! What the screens know of the toolkit: keys, rectangles and the slots of a softkey bar.
//!
//! Plain values. The toolkit edits fields, moves list cursors, measures text and paints; what it
//! answered is handed to the screens, and what they decide is handed back to it.

use vstd::prelude::*;
use vstd::string::*;

verus! {

/// A key of the bar under the screen.
#[derive(Clone, Copy, Debug, PartialEq, Eq, Structural)]
pub enum Softkey {
    Left,
    Middle,
    Right,
}

/// A key.
#[derive(Clone, Copy, Debug, PartialEq, Eq, Structural)]
pub enum Key {
    Up,
    Down,
    Left,
    Right,
    Select,
    Enter,
    /// The green key.
    Call,
    /// The red key.
    End,
    Backspace,
    Char(char),
    Ctrl(char),
    Softkey(Softkey),
    /// Anything this application gives no meaning to.
    Other,
}

/// Whether a key was taken.
#[derive(Clone, Copy, Debug, PartialEq, Eq, Structural)]
pub enum Handled {
    Consumed,
    Ignored,
}

/// A text field, as the toolkit left it.
#[derive(Debug, PartialEq, Eq)]
pub struct Field {
    pub text: String,
    /// How many characters stand before the caret.
    pub cursor: usize,
    /// Whether the text is shown as stars.
    pub masked: bool,
    /// How many characters it takes.
    pub limit: usize,
}

/// The values of a [`Field`].
pub struct FieldView {
    pub text: Seq<char>,
    pub cursor: usize,
    pub masked: bool,
    pub limit: usize,
}

impl View for Field {
    type V = FieldView;

    open spec fn view(&self) -> FieldView {
        FieldView {
            text: self.text@,
            cursor: self.cursor,
            masked: self.masked,
            limit: self.limit,
        }
    }
}

impl FieldView {
    /// What the field shows: its text, or a star for each character of it.
    pub open spec fn shown(self) -> Seq<char> {
        if self.masked {
            Seq::new(self.text.len(), |i: int| '*')
        } else {
            self.text
        }
    }

    /// What the field shows before its caret, which is what the caret is placed by.
    pub open spec fn before_caret(self) -> Seq<char> {
        if self.cursor < self.shown().len() {
            self.shown().take(self.cursor as int)
        } else {
            self.shown()
        }
    }

    /// The same field with nothing in it.
    pub open spec fn emptied(self) -> FieldView {
        FieldView { text: seq![], cursor: 0, ..self }
    }
}

impl Clone for Field {
    fn clone(&self) -> (r: Self)
        ensures
            r@ == self@,
    {
        Field {
            text: self.text.clone(),
            cursor: self.cursor,
            masked: self.masked,
            limit: self.limit,
        }
    }
}

impl Field {
    /// An empty field.
    pub fn with_limit(limit: usize) -> (r: Field)
        ensures
            r@ == (FieldView { text: seq![], cursor: 0, masked: false, limit }),
    {
        let r = Field { text: String::new(), cursor: 0, masked: false, limit };
        assert(r@.text =~= seq![]);
        r
    }

    /// Whether nothing has been typed.
    pub fn is_empty(&self) -> (r: bool)
        ensures
            r == (self@.text.len() == 0),
    {
        self.text.as_str().is_empty()
    }

    /// Take what has been typed out of the field.
    pub fn take(&mut self) -> (r: String)
        ensures
            r@ == old(self)@.text,
            final(self)@ == old(self)@.emptied(),
    {
        let mut s = String::new();
        std::mem::swap(&mut s, &mut self.text);
        self.cursor = 0;
        assert(self@.text =~= seq![]);
        s
    }

    /// What the field shows.
    pub fn display(&self) -> (r: String)
        ensures
            r@ == self@.shown(),
    {
        if !self.masked {
            return self.text.clone();
        }
        let n: usize = self.text.as_str().unicode_len();
        let mut s = String::new();
        let mut i: usize = 0;
        while i < n
            invariant
                i <= n,
                s@ =~= Seq::new(i as nat, |k: int| '*'),
            decreases n - i,
        {
            s.push('*');
            i += 1;
        }
        s
    }

    /// What the field shows before its caret.
    pub fn caret_text(&self) -> (r: String)
        ensures
            r@ == self@.before_caret(),
    {
        let shown = self.display();
        let n: usize = shown.as_str().unicode_len();
        if self.cursor < n {
            let part = shown.as_str().substring_char(0, self.cursor);
            assert(part@ =~= self@.shown().take(self.cursor as int));
            part.to_owned()
        } else {
            shown
        }
    }
}

/// What the toolkit's field made of a key: whether it took it, and what the field is now.
#[derive(Debug)]
pub struct Edit {
    pub handled: Handled,
    pub field: Field,
}

/// Where the cursor of a list is, and how far the list is scrolled.
#[derive(Clone, Copy, Debug, PartialEq, Eq, Structural)]
pub struct ListState {
    pub selected: usize,
    pub scroll: i32,
}

impl ListState {
    /// A list at its top.
    pub fn new() -> (r: ListState)
        ensures
            r == (ListState { selected: 0, scroll: 0 }),
    {
        ListState { selected: 0, scroll: 0 }
    }
}

/// What the toolkit's list made of a key: whether it took it, and where the list is now.
#[derive(Clone, Copy, Debug, PartialEq, Eq, Structural)]
pub struct Moved {
    pub handled: Handled,
    pub state: ListState,
}

/// What a screen has to ask the toolkit before it can say what a key does.
#[derive(Clone, Copy, Debug, PartialEq, Eq, Structural)]
pub enum Ask {
    Nothing,
    /// What the field in front makes of the key.
    Field,
    /// What the list makes of the key.
    List,
    /// Where the list ends up when its cursor moves up by one row.
    Previous,
    /// Where the list ends up when its cursor moves down by one row.
    Next,
}

/// What the toolkit answered.
#[derive(Debug)]
pub enum Answer {
    Nothing,
    Edited(Edit),
    Moved(Moved),
}

/// Which slot of a softkey bar the toolkit says a key presses.
#[derive(Clone, Copy, Debug, PartialEq, Eq, Structural)]
pub enum Slot {
    Options,
    Action,
    Back,
}

/// A rectangle, its right and bottom edges just outside.
#[derive(Clone, Copy, Debug, PartialEq, Eq, Structural)]
pub struct Rect {
    pub x0: i32,
    pub y0: i32,
    pub x1: i32,
    pub y1: i32,
}

impl Rect {
    /// Whether the edges are in order.
    pub open spec fn sound(self) -> bool {
        self.x0 <= self.x1 && self.y0 <= self.y1
    }

    /// The rectangle with these edges.
    pub open spec fn edges(x0: int, y0: int, x1: int, y1: int) -> Rect {
        Rect { x0: x0 as i32, y0: y0 as i32, x1: x1 as i32, y1: y1 as i32 }
    }

    /// The rectangle with this corner and these sizes.
    pub open spec fn boxed(x: int, y: int, w: int, h: int) -> Rect {
        Rect::edges(x, y, x + w, y + h)
    }

    /// How wide it is.
    pub open spec fn w(self) -> int {
        self.x1 - self.x0
    }

    /// How tall it is.
    pub open spec fn h(self) -> int {
        self.y1 - self.y0
    }
}

/// The rectangle with this corner and these sizes.
pub fn xywh(x: i32, y: i32, w: i32, h: i32) -> (r: Rect)
    requires
        i32::MIN <= x + w <= i32::MAX,
        i32::MIN <= y + h <= i32::MAX,
    ensures
        r == Rect::boxed(x as int, y as int, w as int, h as int),
{
    Rect { x0: x, y0: y, x1: x + w, y1: y + h }
}

/// Half of a number, toward zero.
pub open spec fn half(v: int) -> int {
    if v >= 0 {
        v / 2
    } else {
        -((-v) / 2)
    }
}

/// Half of a number, toward zero.
pub fn halved(v: i32) -> (r: i32)
    ensures
        r == half(v as int),
{
    if v >= 0 {
        v / 2
    } else if v == i32::MIN {
        -0x4000_0000
    } else {
        -((-v) / 2)
    }
}

/// Half of a wider number, toward zero.
pub fn halved_wide(v: i64) -> (r: i64)
    requires
        i64::MIN < v,
    ensures
        r == half(v as int),
{
    if v >= 0 {
        v / 2
    } else {
        -((-v) / 2)
    }
}

/// The sizes a theme gives the furniture of a screen.
#[derive(Clone, Copy, Debug, PartialEq, Eq, Structural)]
pub struct Metrics {
    /// The inset of a row.
    pub pad: i32,
    /// The height of a row.
    pub row_h: i32,
    /// The height of the softkey bar.
    pub softkey_h: i32,
}

/// The space around something, on each side.
#[derive(Clone, Copy, Debug, PartialEq, Eq, Structural)]
pub struct Edges {
    pub left: i32,
    pub top: i32,
    pub right: i32,
    pub bottom: i32,
}

/// The words every application on the handset shares, in the language it is set to.
#[derive(Clone, Copy, Debug)]
pub struct Words {
    pub back: &'static str,
    pub select: &'static str,
    pub cancel: &'static str,
    pub options: &'static str,
}

/// A font by what it is for.
#[derive(Clone, Copy, Debug, PartialEq, Eq, Structural)]
pub enum Font {
    Title,
    Strong,
    Body,
    Small,
}

/// A colour by what it is for.
#[derive(Clone, Copy, Debug, PartialEq, Eq, Structural)]
pub enum Ink {
    Text,
    Dim,
    Accent,
    /// On the accent.
    AccentText,
    Unread,
    Selection,
    /// On the selection.
    SelectionText,
    Divider,
    /// On a bubble of one's own.
    BubbleOut,
    /// On a bubble of the other party's.
    BubbleIn,
    /// What is said about a message of one's own.
    MetaOut,
}

/// A ground by what it is for.
#[derive(Clone, Copy, Debug, PartialEq, Eq, Structural)]
pub enum Surface {
    /// The furniture of a screen.
    Chrome,
    BubbleOut,
    BubbleIn,
}

/// Where a line of text sits in its rectangle.
#[derive(Clone, Copy, Debug, PartialEq, Eq, Structural)]
pub enum Align {
    Start,
    Center,
    End,
}

/// One thing to paint. A frame is a list of these, in order.
#[derive(Debug)]
pub enum Op {
    Clear,
    TitleBar { rect: Rect, title: String, detail: Option<String> },
    SoftkeyBar { rect: Rect, labels: [Option<&'static str>; 3] },
    /// A line in the middle of an otherwise empty band.
    Placeholder { rect: Rect, text: String },
    Text { rect: Rect, text: String, font: Font, ink: Ink, align: Align },
    /// Text from a point on its baseline.
    TextAt { x: i32, baseline: i32, text: String, font: Font, ink: Ink },
    /// The band a field stands in.
    Band { rect: Rect },
    /// A band with round corners.
    Round { rect: Rect, surface: Surface },
    Stroke { rect: Rect, ink: Ink },
    Fill { rect: Rect, ink: Ink },
    /// A line one pixel high.
    Rule { y: i32, x0: i32, x1: i32, ink: Ink },
    /// The ground of a selected part of a text that starts at an edge, between two characters.
    Marked { x: i32, y0: i32, y1: i32, text: String, from: usize, to: usize },
    Scrollbar { rect: Rect },
    /// Nothing outside the rectangle is painted until the clip is lifted.
    Clip { rect: Rect },
    Unclip,
    Avatar { rect: Rect, initials: String, seed: u32 },
    /// The band under a selected row.
    Selected { rect: Rect },
    /// A pill, its right edge and its top given, on a selected row or not.
    Badge { right: i32, top: i32, label: String, selected: bool },
}

/// The words of an optional line.
pub open spec fn words_opt(s: Option<String>) -> Option<Seq<char>> {
    match s {
        Some(s) => Some(s@),
        None => None,
    }
}

/// A copy of an optional line.
pub fn copy_words(s: &Option<String>) -> (r: Option<String>)
    ensures
        words_opt(r) == words_opt(*s),
{
    match s {
        Some(s) => Some(s.clone()),
        None => None,
    }
}

/// The values of an [`Op`].
pub enum OpView {
    Clear,
    TitleBar { rect: Rect, title: Seq<char>, detail: Option<Seq<char>> },
    SoftkeyBar { rect: Rect, labels: Seq<Option<&'static str>> },
    Placeholder { rect: Rect, text: Seq<char> },
    Text { rect: Rect, text: Seq<char>, font: Font, ink: Ink, align: Align },
    TextAt { x: i32, baseline: i32, text: Seq<char>, font: Font, ink: Ink },
    Band { rect: Rect },
    Round { rect: Rect, surface: Surface },
    Stroke { rect: Rect, ink: Ink },
    Fill { rect: Rect, ink: Ink },
    Rule { y: i32, x0: i32, x1: i32, ink: Ink },
    Marked { x: i32, y0: i32, y1: i32, text: Seq<char>, from: usize, to: usize },
    Scrollbar { rect: Rect },
    Clip { rect: Rect },
    Unclip,
    Avatar { rect: Rect, initials: Seq<char>, seed: u32 },
    Selected { rect: Rect },
    Badge { right: i32, top: i32, label: Seq<char>, selected: bool },
}

impl View for Op {
    type V = OpView;

    open spec fn view(&self) -> OpView {
        match *self {
            Op::Clear => OpView::Clear,
            Op::TitleBar { rect, title, detail } => OpView::TitleBar {
                rect,
                title: title@,
                detail: words_opt(detail),
            },
            Op::SoftkeyBar { rect, labels } => OpView::SoftkeyBar { rect, labels: labels@ },
            Op::Placeholder { rect, text } => OpView::Placeholder { rect, text: text@ },
            Op::Text { rect, text, font, ink, align } => OpView::Text {
                rect,
                text: text@,
                font,
                ink,
                align,
            },
            Op::TextAt { x, baseline, text, font, ink } => OpView::TextAt {
                x,
                baseline,
                text: text@,
                font,
                ink,
            },
            Op::Band { rect } => OpView::Band { rect },
            Op::Round { rect, surface } => OpView::Round { rect, surface },
            Op::Stroke { rect, ink } => OpView::Stroke { rect, ink },
            Op::Fill { rect, ink } => OpView::Fill { rect, ink },
            Op::Rule { y, x0, x1, ink } => OpView::Rule { y, x0, x1, ink },
            Op::Marked { x, y0, y1, text, from, to } => OpView::Marked {
                x,
                y0,
                y1,
                text: text@,
                from,
                to,
            },
            Op::Scrollbar { rect } => OpView::Scrollbar { rect },
            Op::Clip { rect } => OpView::Clip { rect },
            Op::Unclip => OpView::Unclip,
            Op::Avatar { rect, initials, seed } => OpView::Avatar {
                rect,
                initials: initials@,
                seed,
            },
            Op::Selected { rect } => OpView::Selected { rect },
            Op::Badge { right, top, label, selected } => OpView::Badge {
                right,
                top,
                label: label@,
                selected,
            },
        }
    }
}

/// The values of a list of things to paint, in order.
pub open spec fn op_views(s: Seq<Op>) -> Seq<OpView> {
    Seq::new(s.len(), |i: int| s[i]@)
}

/// Put one more thing on a list.
pub fn paint(ops: &mut Vec<Op>, op: Op)
    ensures
        op_views(final(ops)@) == op_views(old(ops)@).push(op@),
{
    let ghost before = ops@;
    ops.push(op);
    assert(op_views(ops@) =~= op_views(before).push(op@));
}

/// The bands of a screen, top to bottom.
#[derive(Clone, Copy, Debug, PartialEq, Eq, Structural)]
pub struct Frame {
    pub title: Rect,
    pub content: Rect,
    pub softkeys: Rect,
}

/// A softkey bar: for each slot, its label and the message it sends, declared together.
#[derive(Debug)]
pub struct Softkeys<M> {
    pub options: Option<(&'static str, M)>,
    pub action: Option<(&'static str, M)>,
    pub back: Option<(&'static str, M)>,
}

/// The label of a slot that is declared.
pub open spec fn label_of<M>(slot: Option<(&'static str, M)>) -> Option<&'static str> {
    match slot {
        Some((label, _)) => Some(label),
        None => None,
    }
}

/// The message of a slot that is declared.
pub open spec fn message_of<M>(slot: Option<(&'static str, M)>) -> Option<M> {
    match slot {
        Some((_, m)) => Some(m),
        None => None,
    }
}

/// The labels of a bar, left to right.
pub open spec fn labels_of<M>(bar: Softkeys<M>) -> Seq<Option<&'static str>> {
    seq![label_of(bar.options), label_of(bar.action), label_of(bar.back)]
}

/// A slot whose message is put into another type.
pub open spec fn slot_mapped<M, N>(
    slot: Option<(&'static str, M)>,
    f: spec_fn(M) -> N,
) -> Option<(&'static str, N)> {
    match slot {
        Some((label, m)) => Some((label, f(m))),
        None => None,
    }
}

/// A bar whose messages are put into another type. No slot is lost on the way.
pub open spec fn mapped<M, N>(bar: Softkeys<M>, f: spec_fn(M) -> N) -> Softkeys<N> {
    Softkeys {
        options: slot_mapped(bar.options, f),
        action: slot_mapped(bar.action, f),
        back: slot_mapped(bar.back, f),
    }
}

/// Whether a slot is another one with its message put through a function.
pub open spec fn slot_carried<M, N, F: Fn(M) -> N>(
    from: Option<(&'static str, M)>,
    f: F,
    to: Option<(&'static str, N)>,
) -> bool {
    match from {
        Some((label, m)) => to matches Some((same, n)) && same == label && call_ensures(
            f,
            (m,),
            n,
        ),
        None => to is None,
    }
}

fn carry<M, N, F: Fn(M) -> N>(slot: Option<(&'static str, M)>, f: &F) -> (r: Option<
    (&'static str, N),
>)
    requires
        forall|m: M| call_requires(f, (m,)),
    ensures
        slot_carried(slot, *f, r),
{
    match slot {
        Some((label, m)) => Some((label, f(m))),
        None => None,
    }
}

impl<M> Softkeys<M> {
    /// The message of the slot that was pressed: nothing for a slot without one, so a bar never
    /// answers a key it does not show.
    pub open spec fn answer(self, slot: Option<Slot>) -> Option<M> {
        match slot {
            Some(Slot::Options) => message_of(self.options),
            Some(Slot::Action) => message_of(self.action),
            Some(Slot::Back) => message_of(self.back),
            None => None,
        }
    }

    /// A bar that offers nothing.
    pub fn new() -> (r: Self)
        ensures
            r.options is None,
            r.action is None,
            r.back is None,
    {
        Softkeys { options: None, action: None, back: None }
    }

    /// Offer something in the left slot.
    pub fn options(self, label: &'static str, m: M) -> (r: Self)
        ensures
            r == (Softkeys { options: Some((label, m)), ..self }),
    {
        Softkeys { options: Some((label, m)), action: self.action, back: self.back }
    }

    /// Offer something in the middle slot.
    pub fn action(self, label: &'static str, m: M) -> (r: Self)
        ensures
            r == (Softkeys { action: Some((label, m)), ..self }),
    {
        Softkeys { options: self.options, action: Some((label, m)), back: self.back }
    }

    /// Offer something in the right slot.
    pub fn back(self, label: &'static str, m: M) -> (r: Self)
        ensures
            r == (Softkeys { back: Some((label, m)), ..self }),
    {
        Softkeys { options: self.options, action: self.action, back: Some((label, m)) }
    }

    /// The three labels, left to right.
    pub fn labels(&self) -> (r: [Option<&'static str>; 3])
        ensures
            r@ == labels_of(*self),
    {
        let a = match &self.options {
            Some((l, _)) => Some(*l),
            None => None,
        };
        let b = match &self.action {
            Some((l, _)) => Some(*l),
            None => None,
        };
        let c = match &self.back {
            Some((l, _)) => Some(*l),
            None => None,
        };
        let r = [a, b, c];
        assert(r@ =~= labels_of(*self));
        r
    }

    /// The same bar with its messages put through a function, so that a screen's messages can be
    /// carried inside the application's.
    pub fn map<N, F: Fn(M) -> N>(self, f: F) -> (r: Softkeys<N>)
        requires
            forall|m: M| call_requires(f, (m,)),
        ensures
            slot_carried(self.options, f, r.options),
            slot_carried(self.action, f, r.action),
            slot_carried(self.back, f, r.back),
    {
        Softkeys {
            options: carry(self.options, &f),
            action: carry(self.action, &f),
            back: carry(self.back, &f),
        }
    }

    /// The message of the slot that was pressed.
    pub fn dispatch(self, slot: Option<Slot>) -> (r: Option<M>)
        ensures
            r == self.answer(slot),
    {
        match slot {
            Some(Slot::Options) => match self.options {
                Some((_, m)) => Some(m),
                None => None,
            },
            Some(Slot::Action) => match self.action {
                Some((_, m)) => Some(m),
                None => None,
            },
            Some(Slot::Back) => match self.back {
                Some((_, m)) => Some(m),
                None => None,
            },
            None => None,
        }
    }
}

} // verus!
