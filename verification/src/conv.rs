//! The conversation view: a transcript of bubbles with a composer beneath it.
//!
//! The cursor walks one line of stops, down through each message and then through its links. What
//! the toolkit's field and list make of a key is asked of them, and only where it is needed.

use crate::labels;
use crate::labels::{media_label, Atlas};
use crate::model::{Chat, ChatView};
use crate::strings;
use crate::strings::{start_of_stored, Lang};
use crate::transcript;
use crate::transcript::{Heights, LaidView, Measured, Span, Transcript};
use crate::ui;
use crate::ui::{Answer, Ask, Field, FieldView, Handled, Key, ListState, Moved, Softkey};
use vstd::prelude::*;
use vstd::string::*;

verus! {

/// How many characters a message takes.
pub const MESSAGE_LIMIT: usize = 4096;

/// Which half of the screen has the keys. The composer takes characters only while it has them, so
/// that the arrows are free to walk the transcript.
#[derive(Clone, Copy, Debug, PartialEq, Eq, Structural)]
pub enum Focus {
    Transcript,
    Composer,
}

/// What a key on a conversation asks the application to do.
#[derive(PartialEq, Eq, Debug)]
pub enum ConvAction {
    Back,
    Send(String),
    /// The top of the transcript was reached; the page above is wanted.
    LoadMore,
    /// The media of a message is wanted.
    OpenMedia(usize),
    /// A link is to be opened, as it is written in the message.
    OpenLink(String),
    /// The newest page is wanted again.
    Refresh,
    /// A text is to be put on the clipboard.
    Copy(String),
    Nothing,
}

/// The values of a [`ConvAction`].
pub enum ConvActionView {
    Back,
    Send(Seq<char>),
    LoadMore,
    OpenMedia(usize),
    OpenLink(Seq<char>),
    Refresh,
    Copy(Seq<char>),
    Nothing,
}

impl View for ConvAction {
    type V = ConvActionView;

    open spec fn view(&self) -> ConvActionView {
        match *self {
            ConvAction::Back => ConvActionView::Back,
            ConvAction::Send(s) => ConvActionView::Send(s@),
            ConvAction::LoadMore => ConvActionView::LoadMore,
            ConvAction::OpenMedia(i) => ConvActionView::OpenMedia(i),
            ConvAction::OpenLink(s) => ConvActionView::OpenLink(s@),
            ConvAction::Refresh => ConvActionView::Refresh,
            ConvAction::Copy(s) => ConvActionView::Copy(s@),
            ConvAction::Nothing => ConvActionView::Nothing,
        }
    }
}

/// A conversation on screen.
#[derive(Debug)]
pub struct Conversation {
    /// Which chat it shows.
    pub chat: usize,
    pub state: ListState,
    pub composer: Field,
    pub focus: Focus,
    pub transcript: Option<Transcript>,
    /// What the title bar says besides the name.
    pub note: Option<String>,
    /// Which link of the selected message has the cursor.
    pub link: Option<usize>,
}

/// The values of a [`Transcript`].
#[verifier::ext_equal]
pub struct TranscriptView {
    pub laid: Seq<LaidView>,
    pub width: i32,
    pub count: usize,
}

/// The values of a layout that may not have been made yet.
pub open spec fn transcript_opt(t: Option<Transcript>) -> Option<TranscriptView> {
    match t {
        Some(t) => Some(
            TranscriptView {
                laid: transcript::laid_views(t.laid@),
                width: t.width,
                count: t.count,
            },
        ),
        None => None,
    }
}

/// The values of a [`Conversation`].
#[verifier::ext_equal]
pub struct ConvView {
    pub chat: usize,
    pub state: ListState,
    pub composer: FieldView,
    pub focus: Focus,
    pub transcript: Option<TranscriptView>,
    pub note: Option<Seq<char>>,
    pub link: Option<usize>,
}

impl View for Conversation {
    type V = ConvView;

    open spec fn view(&self) -> ConvView {
        ConvView {
            chat: self.chat,
            state: self.state,
            composer: self.composer@,
            focus: self.focus,
            transcript: transcript_opt(self.transcript),
            note: ui::words_opt(self.note),
            link: self.link,
        }
    }
}

/// A conversation that has just been opened: at the composer, with nothing laid out.
pub open spec fn opened(chat: usize) -> ConvView {
    ConvView {
        chat,
        state: ListState { selected: 0, scroll: 0 },
        composer: FieldView { text: seq![], cursor: 0, masked: false, limit: MESSAGE_LIMIT },
        focus: Focus::Composer,
        transcript: None,
        note: None,
        link: None,
    }
}

impl ConvView {
    /// The links of the selected message, where it is laid out.
    pub open spec fn links_here(self) -> Seq<Span> {
        match self.transcript {
            Some(t) => if self.state.selected < t.laid.len() {
                t.laid[self.state.selected as int].links
            } else {
                seq![]
            },
            None => seq![],
        }
    }

    /// How many messages are laid out.
    pub open spec fn rows(self) -> nat {
        match self.transcript {
            Some(t) => t.laid.len(),
            None => 0,
        }
    }

    /// The text of the link that has the cursor.
    pub open spec fn focused(self, c: ChatView) -> Option<Seq<char>> {
        match self.link {
            Some(i) => if i < self.links_here().len() && self.state.selected < c.messages.len() {
                let span = self.links_here()[i as int];
                let text = c.messages[self.state.selected as int].text;
                if span.start <= span.end <= text.len() {
                    Some(text.subrange(span.start as int, span.end as int))
                } else {
                    None
                }
            } else {
                None
            },
            None => None,
        }
    }

    /// The text of the selected message, and nothing where there is none.
    pub open spec fn selected_text(self, c: ChatView) -> Seq<char> {
        if self.state.selected < c.messages.len() {
            c.messages[self.state.selected as int].text
        } else {
            seq![]
        }
    }

    /// A conversation that says something.
    pub open spec fn saying(self, words: Seq<char>) -> ConvView {
        ConvView { note: Some(words), ..self }
    }
}

/// Where the link cursor goes, and whether the key is spent on that.
///
/// A message is a stop in its own right, and its `n` links are the stops after it. Running off the
/// last one leaves the message; stepping back off the first one lands on it.
pub open spec fn link_step(link: Option<usize>, n: nat, down: bool) -> (Option<usize>, bool) {
    if n == 0 {
        (link, false)
    } else {
        match link {
            None => if down {
                (Some(0), true)
            } else {
                (None, false)
            },
            Some(i) => if down {
                if i + 1 < n {
                    (Some((i + 1) as usize), true)
                } else {
                    (None, false)
                }
            } else if i > 0 {
                (Some((i - 1) as usize), true)
            } else {
                (None, true)
            },
        }
    }
}

/// Where the link cursor lands in a message with `n` links: on its last link for one that comes from
/// below, on the message itself for one that comes from above.
pub open spec fn link_entry(n: nat, down: bool) -> Option<usize> {
    if down || n == 0 {
        None
    } else {
        Some((n - 1) as usize)
    }
}

/// Whether a key opens or sends.
pub open spec fn acts(key: Key) -> bool {
    key == Key::Softkey(Softkey::Middle) || key == Key::Enter || key == Key::Call || key
        == Key::Select
}

/// What the routing of a key has to ask the toolkit.
pub open spec fn route_ask(s: ConvView, key: Key) -> Ask {
    let here = s.focus == Focus::Transcript;
    if key == Key::Softkey(Softkey::Right) || key == Key::Softkey(Softkey::Left) || acts(key) {
        Ask::Nothing
    } else if !here {
        if key == Key::Up {
            Ask::Nothing
        } else {
            Ask::Field
        }
    } else if key == Key::Up && s.state.selected == 0 && s.state.scroll == 0 {
        Ask::Nothing
    } else if key == Key::Down && s.state.selected + 1 >= s.rows() {
        Ask::Nothing
    } else if key == Key::Ctrl('c') {
        Ask::Nothing
    } else if key == Key::Left {
        Ask::Previous
    } else if key == Key::Right {
        Ask::Next
    } else {
        Ask::List
    }
}

/// What opening what the cursor is on does: the link it is on, or the media of its message. A link
/// wins, since the cursor is visibly on it.
pub open spec fn activated(s: ConvView, c: ChatView, glyphs: Seq<char>) -> (
    ConvView,
    ConvActionView,
) {
    match s.focused(c) {
        Some(url) => (s.saying("abrindo "@ + url), ConvActionView::OpenLink(url)),
        None => if s.state.selected < c.messages.len()
            && c.messages[s.state.selected as int].media is Some {
            let label = labels::label_words(
                c.messages[s.state.selected as int].media->0,
                glyphs,
            );
            (s.saying("abrindo "@ + label + "…"@), ConvActionView::OpenMedia(s.state.selected))
        } else {
            (s, ConvActionView::Nothing)
        },
    }
}

/// What sending the draft does: it is taken out of the composer, where there is one.
pub open spec fn dispatched(s: ConvView) -> (ConvView, ConvActionView) {
    if s.composer.text.len() > 0 {
        (
            ConvView { composer: s.composer.emptied(), ..s },
            ConvActionView::Send(s.composer.text),
        )
    } else {
        (s, ConvActionView::Nothing)
    }
}

/// What a key that opens or sends does.
pub open spec fn acted(s: ConvView, c: ChatView, glyphs: Seq<char>) -> (ConvView, ConvActionView) {
    if s.focus == Focus::Transcript {
        activated(s, c, glyphs)
    } else {
        dispatched(s)
    }
}

/// What a key does once the link cursor has had its turn.
pub open spec fn routed(
    s: ConvView,
    key: Key,
    c: ChatView,
    glyphs: Seq<char>,
    lang: Lang,
    answer: Answer,
) -> (ConvView, Handled, ConvActionView) {
    let here = s.focus == Focus::Transcript;
    if key == Key::Softkey(Softkey::Right) {
        (s, Handled::Consumed, ConvActionView::Back)
    } else if key == Key::Softkey(Softkey::Left) {
        (s.saying("atualizando…"@), Handled::Consumed, ConvActionView::Refresh)
    } else if acts(key) {
        let (n, a) = acted(s, c, glyphs);
        (n, Handled::Consumed, a)
    } else if key == Key::Up && !here {
        (
            ConvView { focus: Focus::Transcript, ..s },
            Handled::Consumed,
            ConvActionView::Nothing,
        )
    } else if key == Key::Up && s.state.selected == 0 && s.state.scroll == 0 {
        if c.windowed && !c.complete {
            (
                s.saying(strings::wording(lang, "start of what is stored", "inicio do que esta guardado")@),
                Handled::Consumed,
                ConvActionView::Nothing,
            )
        } else {
            (s, Handled::Consumed, ConvActionView::LoadMore)
        }
    } else if key == Key::Down && here && s.state.selected + 1 >= s.rows() {
        (ConvView { focus: Focus::Composer, ..s }, Handled::Consumed, ConvActionView::Nothing)
    } else if key == Key::Ctrl('c') && here {
        match s.focused(c) {
            Some(url) => (
                s.saying("copiado: "@ + url),
                Handled::Consumed,
                ConvActionView::Copy(url),
            ),
            None => if s.selected_text(c).len() == 0 {
                (s.saying("nada para copiar"@), Handled::Consumed, ConvActionView::Nothing)
            } else {
                (
                    s.saying("mensagem copiada"@),
                    Handled::Consumed,
                    ConvActionView::Copy(s.selected_text(c)),
                )
            },
        }
    } else {
        match (route_ask(s, key), answer) {
            (Ask::Previous, Answer::Moved(m)) => (
                ConvView { state: m.state, ..s },
                Handled::Consumed,
                ConvActionView::Nothing,
            ),
            (Ask::Next, Answer::Moved(m)) => (
                ConvView { state: m.state, ..s },
                Handled::Consumed,
                ConvActionView::Nothing,
            ),
            (Ask::List, Answer::Moved(m)) => (
                ConvView { state: m.state, ..s },
                m.handled,
                ConvActionView::Nothing,
            ),
            (Ask::Field, Answer::Edited(e)) => (
                ConvView { composer: e.field@, ..s },
                e.handled,
                ConvActionView::Nothing,
            ),
            _ => (s, Handled::Ignored, ConvActionView::Nothing),
        }
    }
}

/// Whether a key walks the transcript, and which way: down or not.
pub open spec fn walks(s: ConvView, key: Key) -> Option<bool> {
    if s.focus == Focus::Transcript && key == Key::Up {
        Some(false)
    } else if s.focus == Focus::Transcript && key == Key::Down {
        Some(true)
    } else {
        None
    }
}

/// What a key has to ask the toolkit: nothing while it only moves the link cursor.
pub open spec fn key_ask(s: ConvView, key: Key) -> Ask {
    match walks(s, key) {
        Some(down) => {
            let (link, spent) = link_step(s.link, s.links_here().len(), down);
            if spent {
                Ask::Nothing
            } else {
                route_ask(ConvView { link, ..s }, key)
            }
        },
        None => route_ask(s, key),
    }
}

/// What a key does. The link cursor has first refusal of the arrows that walk.
pub open spec fn keyed(
    s: ConvView,
    key: Key,
    c: ChatView,
    glyphs: Seq<char>,
    lang: Lang,
    answer: Answer,
) -> (ConvView, Handled, ConvActionView) {
    match walks(s, key) {
        None => routed(s, key, c, glyphs, lang, answer),
        Some(down) => {
            let (link, spent) = link_step(s.link, s.links_here().len(), down);
            let n = ConvView { link, ..s };
            if spent {
                (n, Handled::Consumed, ConvActionView::Nothing)
            } else {
                let (m, h, a) = routed(n, key, c, glyphs, lang, answer);
                if m.state.selected != n.state.selected {
                    (ConvView { link: link_entry(m.links_here().len(), down), ..m }, h, a)
                } else {
                    (m, h, a)
                }
            }
        },
    }
}

/// Where the toolkit has to put the list after the layout was brought up to date.
#[derive(Clone, Copy, Debug, PartialEq, Eq, Structural)]
pub enum Placement {
    /// Where it was: nothing changed.
    Keep,
    /// At its end, where the newest message is.
    End,
    /// With this row at the top.
    Row(usize),
    /// Inside its bounds.
    Clamp,
}

/// Whether the layout of a conversation does not match a chat at a width.
pub open spec fn stale(s: ConvView, c: ChatView, avail_w: i32) -> bool {
    match s.transcript {
        Some(t) => t.width != avail_w || t.count != c.messages.len(),
        None => true,
    }
}

/// A conversation with its layout brought up to date, and where the list goes. `top` is the row that
/// stood at the top of the old layout.
pub open spec fn relaid(
    s: ConvView,
    c: ChatView,
    avail_w: i32,
    x: Seq<Measured>,
    h: Heights,
    top: Option<usize>,
) -> (ConvView, Placement) {
    if !stale(s, c, avail_w) {
        (s, Placement::Keep)
    } else {
        let t = TranscriptView {
            laid: transcript::layout(c.messages, x, h, avail_w as int),
            width: avail_w,
            count: c.messages.len() as usize,
        };
        let n = ConvView { transcript: Some(t), ..s };
        if s.transcript is None {
            (n, Placement::End)
        } else if top is Some && top->0 < c.messages.len() {
            let selected = transcript::min(
                s.state.selected as int,
                c.messages.len() - 1,
            ) as usize;
            (
                ConvView { state: ListState { selected, ..s.state }, ..n },
                Placement::Row(selected),
            )
        } else {
            (n, Placement::Clamp)
        }
    }
}

fn is_act(key: Key) -> (r: bool)
    ensures
        r == acts(key),
{
    match key {
        Key::Softkey(Softkey::Middle) => true,
        Key::Enter => true,
        Key::Call => true,
        Key::Select => true,
        _ => false,
    }
}

fn joined(a: &str, b: &str) -> (r: String)
    ensures
        r@ == a@ + b@,
{
    let mut s = a.to_owned();
    s.append(b);
    s
}

impl Conversation {
    /// A conversation that has just been opened.
    pub fn new(chat: usize) -> (r: Conversation)
        ensures
            r@ == opened(chat),
    {
        let r = Conversation {
            chat,
            state: ListState::new(),
            composer: Field::with_limit(MESSAGE_LIMIT),
            focus: Focus::Composer,
            transcript: None,
            note: None,
            link: None,
        };
        assert(r@ =~= opened(chat));
        r
    }

    /// Whether the layout has to be made again for a chat at a width.
    pub fn needs_layout(&self, chat: &Chat, avail_w: i32) -> (r: bool)
        ensures
            r == stale(self@, chat@, avail_w),
    {
        match &self.transcript {
            Some(t) => t.is_stale(chat, avail_w),
            None => true,
        }
    }

    /// Lay the messages out again if the width or their number changed, and say where the list goes.
    ///
    /// A conversation opens at its newest message. After that the message under the cursor stays
    /// where it was: messages that were put above it must not carry the reader away.
    pub fn ensure_layout(
        &mut self,
        chat: &Chat,
        avail_w: i32,
        measured: &Vec<Measured>,
        h: Heights,
        top: Option<usize>,
    ) -> (r: Placement)
        requires
            stale(old(self)@, chat@, avail_w) ==> {
                &&& measured@.len() == chat.messages@.len()
                &&& h.sound()
                &&& transcript::measurable(chat@.messages, measured@, h, avail_w as int)
            },
        ensures
            (final(self)@, r) == relaid(old(self)@, chat@, avail_w, measured@, h, top),
    {
        let ghost before = self@;
        if !self.needs_layout(chat, avail_w) {
            return Placement::Keep;
        }
        let first: bool = self.transcript.is_none();
        let t = Transcript::build(chat, measured, h, avail_w);
        self.transcript = Some(t);
        let n: usize = chat.messages.len();
        assert(self@.transcript->0 =~= relaid(
            before,
            chat@,
            avail_w,
            measured@,
            h,
            top,
        ).0.transcript->0);
        let to = if first {
            Placement::End
        } else {
            match top {
                Some(i) => if i < n {
                    if self.state.selected >= n {
                        self.state = ListState { selected: n - 1, scroll: self.state.scroll };
                    }
                    Placement::Row(self.state.selected)
                } else {
                    Placement::Clamp
                },
                None => Placement::Clamp,
            }
        };
        assert(self@ =~= relaid(before, chat@, avail_w, measured@, h, top).0);
        to
    }

    fn rows(&self) -> (r: usize)
        ensures
            r == self@.rows(),
    {
        match &self.transcript {
            Some(t) => t.len(),
            None => 0,
        }
    }

    fn link_count(&self) -> (r: usize)
        ensures
            r == self@.links_here().len(),
    {
        match &self.transcript {
            Some(t) => if self.state.selected < t.laid.len() {
                t.laid[self.state.selected].links.len()
            } else {
                0
            },
            None => 0,
        }
    }

    /// The text of the link that has the cursor.
    pub fn focused_link(&self, chat: &Chat) -> (r: Option<String>)
        ensures
            ui::words_opt(r) == self@.focused(chat@),
    {
        let i: usize = match self.link {
            Some(i) => i,
            None => {
                return None;
            },
        };
        if i >= self.link_count() || self.state.selected >= chat.messages.len() {
            return None;
        }
        match &self.transcript {
            Some(t) => {
                let span = t.laid[self.state.selected].links[i];
                assert(self@.transcript->0.laid[self.state.selected as int]
                    == t.laid@[self.state.selected as int]@);
                assert(chat@.messages[self.state.selected as int]
                    == chat.messages@[self.state.selected as int]@);
                let text = &chat.messages[self.state.selected].text;
                let n: usize = text.as_str().unicode_len();
                if span.start <= span.end && span.end <= n {
                    let part = text.as_str().substring_char(span.start, span.end);
                    Some(part.to_owned())
                } else {
                    None
                }
            },
            None => None,
        }
    }

    /// Move the link cursor to the next stop of the selected message, down or up. False where that
    /// leaves the message, so that the selection has to move instead.
    pub fn step_link(&mut self, down: bool) -> (r: bool)
        ensures
            final(self)@ == (ConvView {
                link: link_step(old(self)@.link, old(self)@.links_here().len(), down).0,
                ..old(self)@
            }),
            r == link_step(old(self)@.link, old(self)@.links_here().len(), down).1,
    {
        let ghost before = self@;
        let n: usize = self.link_count();
        let (to, spent): (Option<usize>, bool) = if n == 0 {
            (self.link, false)
        } else {
            match self.link {
                None => if down {
                    (Some(0), true)
                } else {
                    (None, false)
                },
                Some(i) => if down {
                    if i < n - 1 {
                        (Some(i + 1), true)
                    } else {
                        (None, false)
                    }
                } else if i > 0 {
                    (Some(i - 1), true)
                } else {
                    (None, true)
                },
            }
        };
        self.link = to;
        assert(self@ =~= (ConvView {
            link: link_step(before.link, before.links_here().len(), down).0,
            ..before
        }));
        spent
    }

    fn enter_from(&mut self, down: bool)
        ensures
            final(self)@ == (ConvView {
                link: link_entry(old(self)@.links_here().len(), down),
                ..old(self)@
            }),
    {
        let ghost before = self@;
        let n: usize = self.link_count();
        self.link = if down || n == 0 {
            None
        } else {
            Some(n - 1)
        };
        assert(self@ =~= (ConvView {
            link: link_entry(before.links_here().len(), down),
            ..before
        }));
    }

    fn walking(&self, key: Key) -> (r: Option<bool>)
        ensures
            r == walks(self@, key),
    {
        if self.focus != Focus::Transcript {
            return None;
        }
        match key {
            Key::Up => Some(false),
            Key::Down => Some(true),
            _ => None,
        }
    }

    fn route_asks(&self, key: Key) -> (r: Ask)
        ensures
            r == route_ask(self@, key),
    {
        if is_act(key) {
            return Ask::Nothing;
        }
        let here: bool = self.focus == Focus::Transcript;
        match key {
            Key::Softkey(Softkey::Right) => Ask::Nothing,
            Key::Softkey(Softkey::Left) => Ask::Nothing,
            _ => {
                if !here {
                    if key == Key::Up {
                        return Ask::Nothing;
                    }
                    return Ask::Field;
                }
                if key == Key::Up && self.state.selected == 0 && self.state.scroll == 0 {
                    return Ask::Nothing;
                }
                let rows: usize = self.rows();
                if key == Key::Down && (rows == 0 || self.state.selected >= rows - 1) {
                    return Ask::Nothing;
                }
                match key {
                    Key::Ctrl('c') => Ask::Nothing,
                    Key::Left => Ask::Previous,
                    Key::Right => Ask::Next,
                    _ => Ask::List,
                }
            },
        }
    }

    /// What has to be asked of the toolkit before [`Conversation::handle_key`] can say what a key
    /// does.
    pub fn asks(&self, key: Key) -> (r: Ask)
        ensures
            r == key_ask(self@, key),
    {
        match self.walking(key) {
            Some(down) => {
                let n: usize = self.link_count();
                let spent: bool = n > 0 && match self.link {
                    None => down,
                    Some(i) => !down || i < n - 1,
                };
                if spent {
                    Ask::Nothing
                } else {
                    self.route_asks(key)
                }
            },
            None => self.route_asks(key),
        }
    }

    /// Open what the cursor is on.
    pub fn activate(&mut self, chat: &Chat, font: &Atlas) -> (r: ConvAction)
        ensures
            (final(self)@, r@) == activated(old(self)@, chat@, font.glyphs@),
    {
        let ghost before = self@;
        if let Some(url) = self.focused_link(chat) {
            self.note = Some(joined("abrindo ", url.as_str()));
            assert(self@ =~= activated(before, chat@, font.glyphs@).0);
            return ConvAction::OpenLink(url);
        }
        if self.state.selected < chat.messages.len() {
            assert(chat@.messages[self.state.selected as int]
                == chat.messages@[self.state.selected as int]@);
            if let Some(media) = &chat.messages[self.state.selected].media {
                let label = media_label(media, font);
                let mut note = joined("abrindo ", label.as_str());
                note.append("…");
                self.note = Some(note);
                assert(self@ =~= activated(before, chat@, font.glyphs@).0);
                return ConvAction::OpenMedia(self.state.selected);
            }
        }
        ConvAction::Nothing
    }

    /// Take the draft out of the composer, to be sent.
    pub fn dispatch(&mut self) -> (r: ConvAction)
        ensures
            (final(self)@, r@) == dispatched(old(self)@),
    {
        let ghost before = self@;
        if self.composer.is_empty() {
            return ConvAction::Nothing;
        }
        let text = self.composer.take();
        assert(self@ =~= dispatched(before).0);
        ConvAction::Send(text)
    }

    fn act(&mut self, chat: &Chat, font: &Atlas) -> (r: ConvAction)
        ensures
            (final(self)@, r@) == acted(old(self)@, chat@, font.glyphs@),
    {
        if self.focus == Focus::Transcript {
            self.activate(chat, font)
        } else {
            self.dispatch()
        }
    }

    fn copy(&mut self, chat: &Chat) -> (r: ConvAction)
        ensures
            (match old(self)@.focused(chat@) {
                Some(url) => final(self)@ == old(self)@.saying("copiado: "@ + url) && r@
                    == ConvActionView::Copy(url),
                None => if old(self)@.selected_text(chat@).len() == 0 {
                    final(self)@ == old(self)@.saying("nada para copiar"@) && r@
                        == ConvActionView::Nothing
                } else {
                    final(self)@ == old(self)@.saying("mensagem copiada"@) && r@
                        == ConvActionView::Copy(old(self)@.selected_text(chat@))
                },
            }),
    {
        let ghost before = self@;
        if let Some(url) = self.focused_link(chat) {
            self.note = Some(joined("copiado: ", url.as_str()));
            assert(self@ =~= before.saying("copiado: "@ + url@));
            return ConvAction::Copy(url);
        }
        let text = if self.state.selected < chat.messages.len() {
            assert(chat@.messages[self.state.selected as int]
                == chat.messages@[self.state.selected as int]@);
            chat.messages[self.state.selected].text.clone()
        } else {
            String::new()
        };
        assert(text@ =~= before.selected_text(chat@));
        if text.as_str().is_empty() {
            self.note = Some("nada para copiar".to_owned());
            assert(self@ =~= before.saying("nada para copiar"@));
            return ConvAction::Nothing;
        }
        self.note = Some("mensagem copiada".to_owned());
        assert(self@ =~= before.saying("mensagem copiada"@));
        ConvAction::Copy(text)
    }

    fn route_key(&mut self, key: Key, chat: &Chat, font: &Atlas, lang: Lang, answer: Answer) -> (r: (
        Handled,
        ConvAction,
    ))
        ensures
            (final(self)@, r.0, r.1@) == routed(old(self)@, key, chat@, font.glyphs@, lang, answer),
    {
        let ghost before = self@;
        let ask = self.route_asks(key);
        let here: bool = self.focus == Focus::Transcript;
        if is_act(key) {
            let a = self.act(chat, font);
            return (Handled::Consumed, a);
        }
        match key {
            Key::Softkey(Softkey::Right) => {
                return (Handled::Consumed, ConvAction::Back);
            },
            Key::Softkey(Softkey::Left) => {
                self.note = Some("atualizando…".to_owned());
                assert(self@ =~= before.saying("atualizando…"@));
                return (Handled::Consumed, ConvAction::Refresh);
            },
            Key::Up => {
                if !here {
                    self.focus = Focus::Transcript;
                    assert(self@ =~= (ConvView { focus: Focus::Transcript, ..before }));
                    return (Handled::Consumed, ConvAction::Nothing);
                }
                if self.state.selected == 0 && self.state.scroll == 0 {
                    // The window keeps the newest messages: above them there is nothing to fetch
                    // that would be kept.
                    if chat.windowed && !chat.complete {
                        let words: &'static str = start_of_stored(lang);
                        self.note = Some(words.to_owned());
                        assert(self@ =~= before.saying(words@));
                        return (Handled::Consumed, ConvAction::Nothing);
                    }
                    return (Handled::Consumed, ConvAction::LoadMore);
                }
            },
            Key::Down => {
                let rows: usize = self.rows();
                if here && (rows == 0 || self.state.selected >= rows - 1) {
                    self.focus = Focus::Composer;
                    assert(self@ =~= (ConvView { focus: Focus::Composer, ..before }));
                    return (Handled::Consumed, ConvAction::Nothing);
                }
            },
            Key::Ctrl('c') => {
                if here {
                    let a = self.copy(chat);
                    return (Handled::Consumed, a);
                }
            },
            _ => {},
        }
        match (ask, answer) {
            (Ask::Previous, Answer::Moved(m)) => {
                self.state = m.state;
                assert(self@ =~= (ConvView { state: m.state, ..before }));
                (Handled::Consumed, ConvAction::Nothing)
            },
            (Ask::Next, Answer::Moved(m)) => {
                self.state = m.state;
                assert(self@ =~= (ConvView { state: m.state, ..before }));
                (Handled::Consumed, ConvAction::Nothing)
            },
            (Ask::List, Answer::Moved(m)) => {
                self.state = m.state;
                assert(self@ =~= (ConvView { state: m.state, ..before }));
                (m.handled, ConvAction::Nothing)
            },
            (Ask::Field, Answer::Edited(e)) => {
                self.composer = e.field;
                assert(self@ =~= (ConvView { composer: e.field@, ..before }));
                (e.handled, ConvAction::Nothing)
            },
            _ => (Handled::Ignored, ConvAction::Nothing),
        }
    }

    /// What a key does, given what the toolkit made of it where it was asked.
    pub fn handle_key(&mut self, key: Key, chat: &Chat, font: &Atlas, lang: Lang, answer: Answer) -> (r: (
        Handled,
        ConvAction,
    ))
        ensures
            (final(self)@, r.0, r.1@) == keyed(old(self)@, key, chat@, font.glyphs@, lang, answer),
    {
        let down: bool = match self.walking(key) {
            Some(d) => d,
            None => {
                return self.route_key(key, chat, font, lang, answer);
            },
        };
        if self.step_link(down) {
            return (Handled::Consumed, ConvAction::Nothing);
        }
        let before: usize = self.state.selected;
        let out = self.route_key(key, chat, font, lang, answer);
        if self.state.selected != before {
            self.enter_from(down);
        }
        out
    }
}

// ---- laws -----------------------------------------------------------------------------------------

/// Down and up walk the same stops: a step between two stops of one message is undone by the step
/// back, and the stop a message is left from downwards is the one it is entered at from below. Only
/// the last stop is left downwards, and only the message itself upwards; then no link has the cursor.
pub proof fn the_walk_is_the_same_backwards(link: Option<usize>, n: nat)
    requires
        n <= usize::MAX,
        link matches Some(i) ==> i < n,
    ensures
        ({
            let (to, spent) = link_step(link, n, true);
            if spent {
                link_step(to, n, false) == (link, true)
            } else {
                to is None && link == link_entry(n, false)
            }
        }),
        link_step(link, n, true).1 == !(n == 0 || link == Some((n - 1) as usize)),
        link_step(link, n, false).1 == (link is Some),
        ({
            let (to, spent) = link_step(link, n, false);
            if spent {
                link_step(to, n, true) == (link, true)
            } else {
                to is None && link == link_entry(n, true)
            }
        }),
{
}

/// A key that is spent on the links does nothing else: it asks for no older messages.
pub proof fn walking_links_asks_for_nothing(
    s: ConvView,
    key: Key,
    c: ChatView,
    glyphs: Seq<char>,
    lang: Lang,
    answer: Answer,
    down: bool,
)
    requires
        walks(s, key) == Some(down),
        link_step(s.link, s.links_here().len(), down).1,
    ensures
        keyed(s, key, c, glyphs, lang, answer).1 == Handled::Consumed,
        keyed(s, key, c, glyphs, lang, answer).2 == ConvActionView::Nothing,
        keyed(s, key, c, glyphs, lang, answer).0.state == s.state,
{
}

/// A message without links is walked as if there were no link cursor.
pub proof fn without_links_the_cursor_is_not_there(
    s: ConvView,
    key: Key,
    c: ChatView,
    glyphs: Seq<char>,
    lang: Lang,
    answer: Answer,
)
    requires
        s.link is None,
        s.links_here().len() == 0,
        walks(s, key) is Some,
    ensures
        ({
            let (m, h, a) = routed(s, key, c, glyphs, lang, answer);
            let (n, h2, a2) = keyed(s, key, c, glyphs, lang, answer);
            h2 == h && a2 == a && n.state == m.state && n.focus == m.focus && n.composer
                == m.composer && (n.state.selected == s.state.selected ==> n == m)
        }),
{
}

/// Only the composer takes characters: while the transcript has the keys, no key changes the draft.
pub proof fn the_transcript_never_edits_the_draft(
    s: ConvView,
    key: Key,
    c: ChatView,
    glyphs: Seq<char>,
    lang: Lang,
    answer: Answer,
)
    requires
        s.focus == Focus::Transcript,
    ensures
        keyed(s, key, c, glyphs, lang, answer).0.composer == s.composer,
{
}

/// What is sent is what was typed, never nothing, and the draft is gone with it; whatever else is
/// asked for leaves the draft alone.
pub proof fn only_sending_takes_the_draft(
    s: ConvView,
    key: Key,
    c: ChatView,
    glyphs: Seq<char>,
    lang: Lang,
    answer: Answer,
)
    ensures
        ({
            let (n, h, a) = keyed(s, key, c, glyphs, lang, answer);
            &&& a matches ConvActionView::Send(t) ==> t == s.composer.text && t.len() > 0
                && n.composer == s.composer.emptied()
            &&& !(a is Send) && !(a is Nothing) ==> n.composer == s.composer
        }),
{
}

/// The right softkey goes back and the left one asks for what is new, from anywhere on the screen.
pub proof fn back_and_refresh_are_always_there(
    s: ConvView,
    c: ChatView,
    glyphs: Seq<char>,
    lang: Lang,
    answer: Answer,
)
    ensures
        keyed(s, Key::Softkey(Softkey::Right), c, glyphs, lang, answer) == (
            s,
            Handled::Consumed,
            ConvActionView::Back,
        ),
        keyed(s, Key::Softkey(Softkey::Left), c, glyphs, lang, answer).2 == ConvActionView::Refresh,
        keyed(s, Key::Softkey(Softkey::Left), c, glyphs, lang, answer).0.composer == s.composer,
{
}

/// A link that has the cursor wins over the media of its message, to open and to copy.
pub proof fn a_focused_link_wins(
    s: ConvView,
    key: Key,
    c: ChatView,
    glyphs: Seq<char>,
    lang: Lang,
    answer: Answer,
    url: Seq<char>,
)
    requires
        s.focus == Focus::Transcript,
        s.focused(c) == Some(url),
        acts(key) || key == Key::Ctrl('c'),
    ensures
        keyed(s, key, c, glyphs, lang, answer).2 == (if acts(key) {
            ConvActionView::OpenLink(url)
        } else {
            ConvActionView::Copy(url)
        }),
{
}

/// A conversation opens at its newest message, and a layout that is made again leaves the cursor on
/// a message that is there.
pub proof fn a_new_layout_keeps_the_place(
    s: ConvView,
    c: ChatView,
    avail_w: i32,
    x: Seq<Measured>,
    h: Heights,
    top: Option<usize>,
)
    requires
        c.messages.len() <= usize::MAX,
    ensures
        s.transcript is None ==> relaid(s, c, avail_w, x, h, top).1 == Placement::End,
        relaid(s, c, avail_w, x, h, top).1 matches Placement::Row(i) ==> i < c.messages.len()
            && relaid(s, c, avail_w, x, h, top).0.state.selected == i && (s.state.selected
            < c.messages.len() ==> i == s.state.selected),
        !stale(relaid(s, c, avail_w, x, h, top).0, c, avail_w),
{
}

} // verus!
