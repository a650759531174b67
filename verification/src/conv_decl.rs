//! The conversation, described around a transcript that is drawn by hand.

use crate::conv;
use crate::conv::{ConvAction, ConvActionView, ConvView, Conversation, Focus};
use crate::model::Chat;
use crate::strings;
use crate::strings::{refresh, send, Lang};
use crate::text::same;
use crate::ui;
use crate::ui::{copy_words, Key, Slot, Softkey, Softkeys, Words};
use vstd::prelude::*;
use vstd::string::*;

verus! {

/// What the conversation asks the application to do.
#[derive(Debug, PartialEq, Eq)]
pub enum Msg {
    /// Back to the chat list.
    Back,
    /// Send what is in the composer.
    Send,
    /// The action key in the transcript: open what the cursor is on, which the conversation knows.
    Activate,
    /// Ask for the newest page again.
    Refresh,
    /// The top was reached; ask for the page above.
    LoadMore,
    /// Open the media of a message.
    OpenMedia(usize),
    /// Open a link, as it is written in the message.
    OpenLink(String),
    /// Put a text on the clipboard.
    Copy(String),
    /// Send a text that was already taken out of the composer.
    SendTaken(String),
    /// What the screen is described by changed while a widget took a key.
    ViewStale,
}

/// The values of a [`Msg`].
pub enum MsgView {
    Back,
    Send,
    Activate,
    Refresh,
    LoadMore,
    OpenMedia(usize),
    OpenLink(Seq<char>),
    Copy(Seq<char>),
    SendTaken(Seq<char>),
    ViewStale,
}

impl View for Msg {
    type V = MsgView;

    open spec fn view(&self) -> MsgView {
        match *self {
            Msg::Back => MsgView::Back,
            Msg::Send => MsgView::Send,
            Msg::Activate => MsgView::Activate,
            Msg::Refresh => MsgView::Refresh,
            Msg::LoadMore => MsgView::LoadMore,
            Msg::OpenMedia(i) => MsgView::OpenMedia(i),
            Msg::OpenLink(s) => MsgView::OpenLink(s@),
            Msg::Copy(s) => MsgView::Copy(s@),
            Msg::SendTaken(s) => MsgView::SendTaken(s@),
            Msg::ViewStale => MsgView::ViewStale,
        }
    }
}

/// The values of a message that may not be there.
pub open spec fn msg_opt(m: Option<Msg>) -> Option<MsgView> {
    match m {
        Some(m) => Some(m@),
        None => None,
    }
}

/// The bar: refresh, send where there is something to send, and back.
pub open spec fn bar(composer_empty: bool, words: Words, lang: Lang) -> Softkeys<Msg> {
    Softkeys {
        options: Some((strings::wording(lang, "Refresh", "Atualizar"), Msg::Refresh)),
        action: if composer_empty {
            None
        } else {
            Some((strings::wording(lang, "Send", "Enviar"), Msg::Send))
        },
        back: Some((words.back, Msg::Back)),
    }
}

/// The bar. The middle label comes with the first character and goes with the last.
pub fn softkeys(composer_empty: bool, words: Words, lang: Lang) -> (r: Softkeys<Msg>)
    ensures
        r == bar(composer_empty, words, lang),
{
    let k = Softkeys::new().options(refresh(lang), Msg::Refresh).back(words.back, Msg::Back);
    if composer_empty {
        k
    } else {
        k.action(send(lang), Msg::Send)
    }
}

/// What a key means on this screen.
pub open spec fn meaning(
    focus: Focus,
    composer_empty: bool,
    key: Key,
    slot: Option<Slot>,
    words: Words,
    lang: Lang,
) -> Option<Msg> {
    if conv::acts(key) {
        Some(
            match focus {
                Focus::Transcript => Msg::Activate,
                Focus::Composer => Msg::Send,
            },
        )
    } else {
        bar(composer_empty, words, lang).answer(slot)
    }
}

/// What a key means on this screen, before the transcript sees it. The action key belongs to the
/// half that has the keys: to send in the composer, to open in the transcript, whatever the one
/// middle label says. `slot` is the slot of the bar the key presses.
pub fn on_key(
    focus: Focus,
    composer_empty: bool,
    key: Key,
    slot: Option<Slot>,
    words: Words,
    lang: Lang,
) -> (r: Option<Msg>)
    ensures
        r == meaning(focus, composer_empty, key, slot, words, lang),
{
    let action: bool = match key {
        Key::Select => true,
        Key::Enter => true,
        Key::Call => true,
        Key::Softkey(Softkey::Middle) => true,
        _ => false,
    };
    if action {
        return Some(
            match focus {
                Focus::Transcript => Msg::Activate,
                Focus::Composer => Msg::Send,
            },
        );
    }
    softkeys(composer_empty, words, lang).dispatch(slot)
}

/// What the screen is described by, besides its two bands. Compared before and after a key that a
/// widget takes: the description does not change by itself.
#[derive(Debug)]
pub struct ViewState {
    /// What the title bar says besides the name.
    pub note: Option<String>,
    /// Whether the bar offers to send.
    pub composer_empty: bool,
}

/// What a conversation is described by.
pub open spec fn state_of(c: ConvView) -> (Option<Seq<char>>, bool) {
    (c.note, c.composer.text.len() == 0)
}

impl ViewState {
    /// What a conversation is described by.
    pub fn of(conv: &Conversation) -> (r: ViewState)
        ensures
            (ui::words_opt(r.note), r.composer_empty) == state_of(conv@),
    {
        ViewState { note: copy_words(&conv.note), composer_empty: conv.composer.is_empty() }
    }

    /// Whether two descriptions are the same.
    pub fn same(&self, other: &ViewState) -> (r: bool)
        ensures
            r == (ui::words_opt(self.note) == ui::words_opt(other.note) && self.composer_empty
                == other.composer_empty),
    {
        let notes: bool = match (&self.note, &other.note) {
            (Some(a), Some(b)) => same(a.as_str(), b.as_str()),
            (None, None) => true,
            _ => false,
        };
        notes && self.composer_empty == other.composer_empty
    }
}

/// The message an action is, and nothing for the one that asks for nothing.
pub open spec fn message_of(a: ConvActionView) -> Option<MsgView> {
    match a {
        ConvActionView::Back => Some(MsgView::Back),
        ConvActionView::Send(s) => Some(MsgView::SendTaken(s)),
        ConvActionView::Refresh => Some(MsgView::Refresh),
        ConvActionView::LoadMore => Some(MsgView::LoadMore),
        ConvActionView::OpenMedia(i) => Some(MsgView::OpenMedia(i)),
        ConvActionView::OpenLink(s) => Some(MsgView::OpenLink(s)),
        ConvActionView::Copy(s) => Some(MsgView::Copy(s)),
        ConvActionView::Nothing => None,
    }
}

/// The message an action is. A text that was taken out of the field is never dropped.
pub fn message_for(action: ConvAction) -> (r: Option<Msg>)
    ensures
        msg_opt(r) == message_of(action@),
{
    match action {
        ConvAction::Back => Some(Msg::Back),
        ConvAction::Send(text) => Some(Msg::SendTaken(text)),
        ConvAction::Refresh => Some(Msg::Refresh),
        ConvAction::LoadMore => Some(Msg::LoadMore),
        ConvAction::OpenMedia(i) => Some(Msg::OpenMedia(i)),
        ConvAction::OpenLink(url) => Some(Msg::OpenLink(url)),
        ConvAction::Copy(text) => Some(Msg::Copy(text)),
        ConvAction::Nothing => None,
    }
}

/// What the transcript reports after it took a key: the message of the action, or that what the
/// screen is described by is no longer so.
pub fn report(action: ConvAction, before: &ViewState, after: &ViewState) -> (r: Option<Msg>)
    ensures
        msg_opt(r) == (if !(action@ is Nothing) {
            message_of(action@)
        } else if ui::words_opt(before.note) == ui::words_opt(after.note) && before.composer_empty
            == after.composer_empty {
            None
        } else {
            Some(MsgView::ViewStale)
        }),
{
    let nothing: bool = match &action {
        ConvAction::Nothing => true,
        _ => false,
    };
    if !nothing {
        return message_for(action);
    }
    if before.same(after) {
        None
    } else {
        Some(Msg::ViewStale)
    }
}

/// The conversation as it is described to the toolkit.
#[derive(Debug)]
pub struct Scene {
    pub title: String,
    pub detail: Option<String>,
    pub labels: [Option<&'static str>; 3],
}

/// Describe the conversation: the name of its chat, and what the screen last said.
pub fn view(conv: &Conversation, chat: &Chat, words: Words, lang: Lang) -> (r: Scene)
    ensures
        r.title@ == chat@.name,
        ui::words_opt(r.detail) == (if chat@.loading {
            Some("carregando…"@)
        } else {
            conv@.note
        }),
        r.labels@ == ui::labels_of(bar(conv@.composer.text.len() == 0, words, lang)),
{
    let empty: bool = conv.composer.is_empty();
    let labels = softkeys(empty, words, lang).labels();
    let detail = if chat.loading {
        Some("carregando…".to_owned())
    } else {
        copy_words(&conv.note)
    };
    Scene { title: chat.name.clone(), detail, labels }
}

/// The action key follows the focus, not the label.
pub proof fn the_action_key_follows_the_focus(
    composer_empty: bool,
    key: Key,
    slot: Option<Slot>,
    words: Words,
    lang: Lang,
)
    requires
        conv::acts(key),
    ensures
        meaning(Focus::Transcript, composer_empty, key, slot, words, lang) == Some(Msg::Activate),
        meaning(Focus::Composer, composer_empty, key, slot, words, lang) == Some(Msg::Send),
{
}

} // verus!
