//! What the screens are for: a key does what its label says, to what the cursor is on.

use crate::app;
use crate::app::{AppView, DoView, ScreenView, WantedView};
use crate::chats;
use crate::chats::ChatListAction;
use crate::chats_decl;
use crate::conv;
use crate::conv::{ConvActionView, ConvView, Focus, Placement};
use crate::conv_decl;
use crate::login;
use crate::login_decl;
use crate::login_laws;
use crate::menu_decl;
use crate::model::ChatView;
use crate::mvu;
use crate::mvu::{Cmd, ModelView, Msg, MsgView};
use crate::strings::Lang;
use crate::transcript::{Heights, Measured};
use crate::ui::{
    Answer, Ask, Edit, Handled, Key, ListState, Metrics, Moved, Slot, Softkey, Words,
};
use crate::viewer_decl;
use vstd::prelude::*;

verus! {

// ---- a conversation -------------------------------------------------------------------------------

/// Whether a key is the action key, in any of its forms.
pub open spec fn is_action(key: Key) -> bool {
    match key {
        Key::Softkey(k) => k == Softkey::Middle,
        Key::Enter => true,
        Key::Call => true,
        Key::Select => true,
        _ => false,
    }
}

/// Whether the cursor of a conversation is on a link of the message it is on, and the link is some
/// text of that message.
pub open spec fn on_link(s: ConvView, c: ChatView, url: Seq<char>) -> bool {
    &&& s.transcript matches Some(t)
    &&& s.link matches Some(i)
    &&& s.state.selected < t.laid.len()
    &&& s.state.selected < c.messages.len()
    &&& i < t.laid[s.state.selected as int].links.len()
    &&& {
        let span = t.laid[s.state.selected as int].links[i as int];
        let words = c.messages[s.state.selected as int].text;
        &&& span.start <= span.end <= words.len()
        &&& url.len() == span.end - span.start
        &&& forall|k: int| 0 <= k < url.len() ==> #[trigger] url[k] == words[span.start + k]
    }
}

proof fn lemma_focused(s: ConvView, c: ChatView, url: Seq<char>)
    requires
        on_link(s, c, url),
    ensures
        s.focused(c) == Some(url),
{
    let span = s.links_here()[s.link->0 as int];
    let words = c.messages[s.state.selected as int].text;
    assert(words.subrange(span.start as int, span.end as int) =~= url);
}

/// The action key on a link opens that link, as it is written in the message, and copying copies it;
/// and what is done is said.
pub proof fn a_link_under_the_cursor_is_the_one_taken(
    s: ConvView,
    key: Key,
    c: ChatView,
    glyphs: Seq<char>,
    lang: Lang,
    answer: Answer,
    url: Seq<char>,
)
    requires
        s.focus == Focus::Transcript,
        on_link(s, c, url),
    ensures
        ({
            let (n, h, a) = conv::keyed(s, key, c, glyphs, lang, answer);
            &&& is_action(key) ==> a == ConvActionView::OpenLink(url) && h == Handled::Consumed
                && n.note == Some("abrindo "@ + url)
            &&& key == Key::Ctrl('c') ==> a == ConvActionView::Copy(url) && h == Handled::Consumed
                && n.note == Some("copiado: "@ + url)
            &&& is_action(key) || key == Key::Ctrl('c') ==> n.state == s.state && n.link == s.link
                && n.focus == s.focus && n.composer == s.composer && n.chat == s.chat
        }),
{
    lemma_focused(s, c, url);
}

/// The action key on a message without a link under the cursor opens what the message carries, and
/// does nothing where it carries nothing; copying copies the words of the message.
pub proof fn a_message_under_the_cursor_is_the_one_taken(
    s: ConvView,
    key: Key,
    c: ChatView,
    glyphs: Seq<char>,
    lang: Lang,
    answer: Answer,
)
    requires
        s.focus == Focus::Transcript,
        s.link is None,
        s.state.selected < c.messages.len(),
    ensures
        ({
            let (n, h, a) = conv::keyed(s, key, c, glyphs, lang, answer);
            let m = c.messages[s.state.selected as int];
            &&& is_action(key) && m.media is Some ==> a == ConvActionView::OpenMedia(
                s.state.selected,
            ) && h == Handled::Consumed
            &&& is_action(key) && m.media is None ==> a == ConvActionView::Nothing && n == s
            &&& key == Key::Ctrl('c') && m.text.len() > 0 ==> a == ConvActionView::Copy(m.text)
                && n.note == Some("mensagem copiada"@)
            &&& key == Key::Ctrl('c') && m.text.len() == 0 ==> a == ConvActionView::Nothing
                && n.note == Some("nada para copiar"@)
        }),
{
}

/// A link that the message does not have, or that does not lie within its text, is under no cursor.
pub proof fn only_a_link_that_is_there_is_under_the_cursor(s: ConvView, c: ChatView, i: usize)
    requires
        s.link == Some(i),
    ensures
        i >= links_at(s, s.state.selected) ==> s.focused(c) is None,
        s.state.selected >= c.messages.len() ==> s.focused(c) is None,
        s.focused(c) matches Some(url) ==> on_link(s, c, url),
{
    if let Some(url) = s.focused(c) {
        let span = s.links_here()[i as int];
        let words = c.messages[s.state.selected as int].text;
        assert(url == words.subrange(span.start as int, span.end as int));
    }
}

/// The action key at the composer sends what is written there and empties it; with nothing written it
/// does nothing.
pub proof fn the_composer_sends_what_it_holds(
    s: ConvView,
    key: Key,
    c: ChatView,
    glyphs: Seq<char>,
    lang: Lang,
    answer: Answer,
)
    requires
        s.focus == Focus::Composer,
        is_action(key),
    ensures
        ({
            let (n, h, a) = conv::keyed(s, key, c, glyphs, lang, answer);
            &&& h == Handled::Consumed
            &&& s.composer.text.len() > 0 ==> a == ConvActionView::Send(s.composer.text)
                && n.composer.text.len() == 0 && n.composer.cursor == 0 && n.composer.limit
                == s.composer.limit
            &&& s.composer.text.len() == 0 ==> a == ConvActionView::Nothing && n == s
            &&& n.chat == s.chat
            &&& n.state == s.state
            &&& n.focus == s.focus
        }),
{
}

/// Up leads from the composer to the transcript, and down from its last row back. At its very top, up
/// asks for the page above, or says that there is none where older ones are not kept.
pub proof fn up_and_down_lead_through_a_conversation(
    s: ConvView,
    c: ChatView,
    glyphs: Seq<char>,
    lang: Lang,
    answer: Answer,
)
    requires
        s.link is None,
        s.links_here().len() == 0,
    ensures
        ({
            let (n, h, a) = conv::keyed(s, Key::Up, c, glyphs, lang, answer);
            &&& s.focus == Focus::Composer ==> n == (ConvView { focus: Focus::Transcript, ..s }) && h
                == Handled::Consumed && a == ConvActionView::Nothing
            &&& s.focus == Focus::Transcript && s.state.selected == 0 && s.state.scroll == 0 ==> {
                &&& h == Handled::Consumed
                &&& c.windowed && !c.complete ==> a == ConvActionView::Nothing && n.note is Some
                &&& !c.windowed || c.complete ==> a == ConvActionView::LoadMore && n == s
                &&& n.state == s.state
            }
            &&& s.focus == Focus::Transcript && (s.state.selected != 0 || s.state.scroll != 0) ==> a
                == ConvActionView::Nothing && n.focus == Focus::Transcript && (answer
                matches Answer::Moved(m) ==> n.state == m.state && h == m.handled)
        }),
        ({
            let (n, h, a) = conv::keyed(s, Key::Down, c, glyphs, lang, answer);
            let last = s.transcript is None || s.state.selected + 1 >= s.transcript->0.laid.len();
            &&& a == ConvActionView::Nothing
            &&& s.focus == Focus::Transcript && last ==> n.focus == Focus::Composer && h
                == Handled::Consumed && n.state == s.state
            &&& s.focus == Focus::Transcript && !last ==> n.focus == Focus::Transcript && (answer
                matches Answer::Moved(m) ==> n.state == m.state && h == m.handled)
            &&& s.focus == Focus::Composer ==> n.focus == Focus::Composer
        }),
{
}

/// How many links the message of a row has.
pub open spec fn links_at(s: ConvView, row: usize) -> int {
    match s.transcript {
        Some(t) => if row < t.laid.len() {
            t.laid[row as int].links.len() as int
        } else {
            0
        },
        None => 0,
    }
}

/// Down walks the links of a message one after another, from the message itself to the last of them,
/// and up walks them back. The message stays under the cursor, and nothing else happens.
pub proof fn links_are_walked_one_by_one(
    s: ConvView,
    c: ChatView,
    glyphs: Seq<char>,
    lang: Lang,
    answer: Answer,
    i: usize,
)
    requires
        s.focus == Focus::Transcript,
        i < links_at(s, s.state.selected) <= usize::MAX,
    ensures
        ({
            let n = links_at(s, s.state.selected);
            let down = conv::keyed(s, Key::Down, c, glyphs, lang, answer);
            let up = conv::keyed(s, Key::Up, c, glyphs, lang, answer);
            let quiet = |r: (ConvView, Handled, ConvActionView), to: Option<usize>|
                r == (ConvView { link: to, ..s }, Handled::Consumed, ConvActionView::Nothing);
            &&& s.link is None ==> quiet(down, Some(0))
            &&& s.link == Some(i) && i + 1 < n ==> quiet(down, Some((i + 1) as usize))
            &&& s.link == Some(i) && i > 0 ==> quiet(up, Some((i - 1) as usize))
            &&& s.link == Some(i) && i == 0 ==> quiet(up, None)
            &&& s.link is None ==> conv::key_ask(s, Key::Down) == Ask::Nothing
            &&& s.link == Some(i) ==> conv::key_ask(s, Key::Up) == Ask::Nothing
        }),
{
}

/// A message that is come upon from below has its last link under the cursor, where it has any, and
/// one that is come upon from above has none.
pub proof fn a_message_is_entered_from_its_side(
    s: ConvView,
    c: ChatView,
    glyphs: Seq<char>,
    lang: Lang,
    m: Moved,
)
    requires
        s.focus == Focus::Transcript,
        s.link is None,
        m.state.selected != s.state.selected,
        links_at(s, m.state.selected) <= usize::MAX,
    ensures
        s.state.selected > 0 ==> {
            let (n, h, a) = conv::keyed(s, Key::Up, c, glyphs, lang, Answer::Moved(m));
            &&& n.state == m.state
            &&& h == m.handled
            &&& a is Nothing
            &&& links_at(s, m.state.selected) > 0 ==> n.link == Some(
                (links_at(s, m.state.selected) - 1) as usize,
            )
            &&& links_at(s, m.state.selected) == 0 ==> n.link is None
        },
        links_at(s, s.state.selected) == 0 && s.transcript is Some && s.state.selected + 1
            < s.transcript->0.laid.len() ==> {
            let (n, h, a) = conv::keyed(s, Key::Down, c, glyphs, lang, Answer::Moved(m));
            &&& n.state == m.state
            &&& h == m.handled
            &&& n.link is None
        },
{
}

/// What the composer makes of a key is what it then holds, and nothing else of the conversation
/// changes.
pub proof fn the_composer_holds_what_is_typed(
    s: ConvView,
    key: Key,
    c: ChatView,
    glyphs: Seq<char>,
    lang: Lang,
    edit: Edit,
)
    requires
        s.focus == Focus::Composer,
        !is_action(key),
        key != Key::Up,
        key != Key::Softkey(Softkey::Left),
        key != Key::Softkey(Softkey::Right),
    ensures
        conv::key_ask(s, key) == Ask::Field,
        conv::keyed(s, key, c, glyphs, lang, Answer::Edited(edit)) == (
            ConvView { composer: edit.field@, ..s },
            edit.handled,
            ConvActionView::Nothing,
        ),
{
}

/// In the transcript left and right step by rows, whatever else the list would have made of them.
pub proof fn left_and_right_step_by_rows(
    s: ConvView,
    c: ChatView,
    glyphs: Seq<char>,
    lang: Lang,
    m: Moved,
)
    requires
        s.focus == Focus::Transcript,
    ensures
        conv::key_ask(s, Key::Left) == Ask::Previous,
        conv::key_ask(s, Key::Right) == Ask::Next,
        conv::keyed(s, Key::Left, c, glyphs, lang, Answer::Moved(m)) == (
            ConvView { state: m.state, ..s },
            Handled::Consumed,
            ConvActionView::Nothing,
        ),
        conv::keyed(s, Key::Right, c, glyphs, lang, Answer::Moved(m)) == (
            ConvView { state: m.state, ..s },
            Handled::Consumed,
            ConvActionView::Nothing,
        ),
{
}

/// A conversation is laid out again exactly where its width changed, or how many messages it has. The
/// layout then is of that width and of that many messages, and the keys stay where they were.
pub proof fn a_layout_is_of_what_is_there(
    s: ConvView,
    c: ChatView,
    avail_w: i32,
    x: Seq<Measured>,
    h: Heights,
    top: Option<usize>,
)
    requires
        c.messages.len() <= usize::MAX,
    ensures
        ({
            let (n, p) = conv::relaid(s, c, avail_w, x, h, top);
            let fits = s.transcript matches Some(t) && t.width == avail_w && t.count
                == c.messages.len();
            &&& fits <==> p == Placement::Keep
            &&& fits ==> n == s
            &&& !fits ==> n.transcript is Some && n.transcript->0.width == avail_w
                && n.transcript->0.count == c.messages.len()
            &&& n.composer == s.composer
            &&& n.focus == s.focus
            &&& n.chat == s.chat
            &&& n.note == s.note
            &&& n.state.scroll == s.state.scroll
            &&& s.state.selected < c.messages.len() ==> n.state == s.state
        }),
{
}

// ---- the list -------------------------------------------------------------------------------------

/// The keys of the list: the action keys open the row under the cursor, the left softkey asks for the
/// list again, and the right one leaves. Nothing is opened where nothing is listed.
pub proof fn the_list_opens_the_row_under_the_cursor(selected: usize, key: Key, count: int)
    requires
        count >= 0,
    ensures
        key == Key::Select || key == Key::Softkey(Softkey::Middle) || key == Key::Call ==> {
            &&& count > 0 ==> chats::activated(selected, key, count) == ChatListAction::Open(selected)
            &&& count == 0 ==> chats::activated(selected, key, count) == ChatListAction::Nothing
        },
        chats::activated(selected, Key::Softkey(Softkey::Left), count) == ChatListAction::Refresh,
        chats::activated(selected, Key::Softkey(Softkey::Right), count) == ChatListAction::Exit,
        !(key == Key::Select || key == Key::Call) && !(key is Softkey) ==> chats::activated(
            selected,
            key,
            count,
        ) == ChatListAction::Nothing,
{
}

/// The list moves as the toolkit moves it; and down on its last row, with nothing more below to scroll
/// to, asks for more of it.
pub proof fn the_list_asks_for_more_at_its_end(
    state: ListState,
    key: Key,
    count: int,
    row_h: int,
    viewport_h: int,
    m: Moved,
)
    ensures
        ({
            let ended = key == Key::Down && count > 0 && state.selected == count - 1 && state.scroll
                >= 0 && state.scroll >= count * row_h - viewport_h;
            let (n, h, a) = chats::list_keyed(
                state,
                key,
                count,
                row_h,
                viewport_h,
                Answer::Moved(m),
            );
            &&& ended ==> n == state && h == Handled::Consumed && a == ChatListAction::LoadMore
            &&& !ended ==> n == m.state && h == m.handled && a == ChatListAction::Nothing
            &&& chats::list_ask(state, key, count, row_h, viewport_h) == (if ended {
                Ask::Nothing
            } else {
                Ask::List
            })
        }),
{
}

/// A key on the list of the application opens the row it lands on, and moves the cursor where the
/// toolkit put it.
pub proof fn a_key_on_the_list_is_of_the_row_it_lands_on(
    s: AppView,
    state: ListState,
    key: Key,
    row_h: int,
    viewport_h: int,
    m: Moved,
)
    requires
        key != Key::Down,
    ensures
        ({
            let (n, h, fx) = app::chats_keyed(s, state, key, row_h, viewport_h, Answer::Moved(m));
            &&& m.handled == Handled::Consumed ==> h == Handled::Consumed && fx.len() == 0
                && n.screen == ScreenView::Chats(m.state) && n.should_exit == s.should_exit
            &&& m.handled == Handled::Ignored && (key == Key::Select || key == Key::Softkey(
                Softkey::Middle,
            ) || key == Key::Call) && s.store.chats.len() > 0 ==> fx == seq![
                DoView::ReadTail(m.state.selected),
            ] && n.screen == ScreenView::Chats(m.state)
            &&& m.handled == Handled::Ignored && key == Key::Softkey(Softkey::Right)
                ==> n.should_exit && fx.len() == 0
            &&& n.store.chats == s.store.chats
        }),
{
}

// ---- labels and messages --------------------------------------------------------------------------

/// On the list the softkeys are, from left to right, the menu, opening and leaving.
pub proof fn the_list_has_its_softkeys(loading: bool)
    ensures
        chats_decl::bar(loading).options matches Some((label, m)) && m == chats_decl::Msg::Options
            && (loading ==> label == "...") && (!loading ==> label == "Opções"),
        chats_decl::bar(loading).action == Some(("Abrir", chats_decl::Msg::Open)),
        chats_decl::bar(loading).back == Some(("Sair", chats_decl::Msg::Quit)),
        chats_decl::meaning(loading, Key::Call, None) == Some(chats_decl::Msg::Open),
        chats_decl::meaning(loading, Key::Softkey(Softkey::Left), Some(Slot::Options)) == Some(
            chats_decl::Msg::Options,
        ),
        chats_decl::meaning(loading, Key::Softkey(Softkey::Middle), Some(Slot::Action)) == Some(
            chats_decl::Msg::Open,
        ),
        chats_decl::meaning(loading, Key::Softkey(Softkey::Right), Some(Slot::Back)) == Some(
            chats_decl::Msg::Quit,
        ),
        chats_decl::meaning(loading, Key::Select, None) is None,
{
}

/// In a conversation they are refreshing, sending and going back; sending is offered exactly where
/// something is written.
pub proof fn a_conversation_has_its_softkeys(empty: bool, words: Words, lang: Lang)
    ensures
        conv_decl::bar(empty, words, lang).options matches Some((_, m)) && m
            == conv_decl::Msg::Refresh,
        empty <==> conv_decl::bar(empty, words, lang).action is None,
        conv_decl::bar(empty, words, lang).action matches Some((_, m)) ==> m == conv_decl::Msg::Send,
        conv_decl::bar(empty, words, lang).back == Some((words.back, conv_decl::Msg::Back)),
        forall|focus: Focus, key: Key, slot: Option<Slot>|
            is_action(key) ==> #[trigger] conv_decl::meaning(focus, empty, key, slot, words, lang)
                == Some(
                match focus {
                    Focus::Transcript => conv_decl::Msg::Activate,
                    Focus::Composer => conv_decl::Msg::Send,
                },
            ),
        forall|focus: Focus, key: Key|
            !is_action(key) ==> #[trigger] conv_decl::meaning(
                focus,
                empty,
                key,
                Some(Slot::Back),
                words,
                lang,
            ) == Some(conv_decl::Msg::Back),
        forall|focus: Focus, key: Key|
            !is_action(key) ==> #[trigger] conv_decl::meaning(
                focus,
                empty,
                key,
                Some(Slot::Options),
                words,
                lang,
            ) == Some(conv_decl::Msg::Refresh),
        forall|focus: Focus, key: Key|
            !is_action(key) ==> #[trigger] conv_decl::meaning(focus, empty, key, None, words, lang)
                is None,
{
}

/// What a conversation asks for becomes a message of the same, with what it carries.
pub proof fn what_a_conversation_asks_becomes_its_message(words: Seq<char>, i: usize)
    ensures
        conv_decl::message_of(ConvActionView::Send(words)) == Some(
            conv_decl::MsgView::SendTaken(words),
        ),
        conv_decl::message_of(ConvActionView::Copy(words)) == Some(conv_decl::MsgView::Copy(words)),
        conv_decl::message_of(ConvActionView::OpenLink(words)) == Some(
            conv_decl::MsgView::OpenLink(words),
        ),
        conv_decl::message_of(ConvActionView::OpenMedia(i)) == Some(conv_decl::MsgView::OpenMedia(i)),
        conv_decl::message_of(ConvActionView::Back) == Some(conv_decl::MsgView::Back),
        conv_decl::message_of(ConvActionView::Refresh) == Some(conv_decl::MsgView::Refresh),
        conv_decl::message_of(ConvActionView::LoadMore) == Some(conv_decl::MsgView::LoadMore),
        conv_decl::message_of(ConvActionView::Nothing) is None,
{
}

/// A message of a conversation does to it what the key would have done: a link is opened, a text is
/// copied or sent, and going back leads to the row of the conversation.
pub proof fn a_message_of_a_conversation_is_carried_out(
    m: ModelView,
    c: ConvView,
    glyphs: Seq<char>,
    time: Seq<char>,
    words: Seq<char>,
)
    requires
        m.app.screen == ScreenView::Conversation(c),
        c.chat < m.app.store.chats.len(),
    ensures
        mvu::updated(m, MsgView::Conv(conv_decl::MsgView::OpenLink(words)), glyphs, time).2 == seq![
            DoView::OpenLink(words),
        ],
        mvu::updated(m, MsgView::Conv(conv_decl::MsgView::Copy(words)), glyphs, time).2 == seq![
            DoView::Copy(words),
        ],
        ({
            let (n, cmd, fx) = mvu::updated(
                m,
                MsgView::Conv(conv_decl::MsgView::SendTaken(words)),
                glyphs,
                time,
            );
            &&& cmd == Cmd::Nothing
            &&& m.app.driver is Some && m.app.store.chats[c.chat as int].peer is Some ==> {
                &&& fx.len() == 1
                &&& fx[0] matches DoView::Ask(WantedView::Message { chat, peer, text })
                &&& chat == c.chat
                &&& Some(peer) == m.app.store.chats[c.chat as int].peer
                &&& text == words
            }
        }),
        c.composer.text.len() > 0 && m.app.driver is Some && m.app.store.chats[c.chat as int].peer
            is Some ==> {
            let fx = mvu::updated(m, MsgView::Conv(conv_decl::MsgView::Send), glyphs, time).2;
            &&& fx.len() == 1
            &&& fx[0] matches DoView::Ask(WantedView::Message { chat, text, .. })
            &&& chat == c.chat
            &&& text == c.composer.text
        },
        ({
            let (n, cmd, fx) = mvu::updated(m, MsgView::Conv(conv_decl::MsgView::Back), glyphs, time);
            &&& n.app.screen matches ScreenView::Chats(state) && state.selected == c.chat
            &&& n.app.store == m.app.store
            &&& cmd == Cmd::Nothing
        }),
        mvu::updated(m, MsgView::Conv(conv_decl::MsgView::ViewStale), glyphs, time) == (
            m,
            Cmd::Nothing,
            Seq::<DoView>::empty(),
        ),
{
}

/// A message of the list does what it says: the row that is chosen is the one the cursor is put on and
/// opened, the menu opens at its first entry, and only leaving leaves.
pub proof fn a_message_of_the_list_is_carried_out(
    m: ModelView,
    i: usize,
    glyphs: Seq<char>,
    time: Seq<char>,
)
    requires
        m.app.screen is Chats,
        m.app.store.chats.len() <= usize::MAX,
    ensures
        ({
            let (n, cmd, fx) = mvu::updated(
                m,
                MsgView::Chats(chats_decl::Msg::Select(i)),
                glyphs,
                time,
            );
            &&& cmd == Cmd::Nothing
            &&& fx.len() == 0
            &&& i < m.app.store.chats.len() ==> n.app.screen is Chats
                && n.app.screen->Chats_0.selected == i && n.last_selected == i
            &&& n.app.screen is Chats && n.app.screen->Chats_0.scroll == m.app.screen->Chats_0.scroll
            &&& n.app.store == m.app.store
        }),
        ({
            let (n, cmd, fx) = mvu::updated(m, MsgView::Chats(chats_decl::Msg::Open), glyphs, time);
            let row = m.app.screen->Chats_0.selected;
            &&& cmd == Cmd::Nothing
            &&& row < m.app.store.chats.len() ==> fx == seq![DoView::ReadTail(row)]
                && n.last_selected == row
            &&& row >= m.app.store.chats.len() ==> fx.len() == 0
        }),
        ({
            let (n, cmd, fx) = mvu::updated(
                m,
                MsgView::Chats(chats_decl::Msg::Options),
                glyphs,
                time,
            );
            &&& n.on_menu
            &&& n.menu_selected == 0
            &&& fx.len() == 0
            &&& n.app == m.app
        }),
        mvu::updated(m, MsgView::Chats(chats_decl::Msg::Quit), glyphs, time).1 == Cmd::Exit,
        m.app.driver is Some && !m.app.store.dialogs_loading ==> mvu::updated(
            m,
            MsgView::Chats(chats_decl::Msg::Refresh),
            glyphs,
            time,
        ).2 == seq![DoView::Ask(WantedView::TopDialogs)],
        m.app.driver is Some && !m.app.store.dialogs_loading && !m.app.store.dialogs_complete ==> {
            let fx = mvu::updated(m, MsgView::Chats(chats_decl::Msg::LoadMore), glyphs, time).2;
            &&& fx.len() == 1
            &&& fx[0] matches DoView::Ask(WantedView::MoreDialogs { date, id, after })
            &&& date == m.app.store.dialog_offset_date
            &&& id == m.app.store.dialog_offset_id
            &&& after == m.app.store.dialog_offset_peer
        },
{
}

/// A message of the menu does what its entry says: asking for the list closes the menu, the log is
/// turned to what it was not and stays in the menu.
pub proof fn a_message_of_the_menu_is_carried_out(m: ModelView, glyphs: Seq<char>, time: Seq<char>)
    requires
        m.on_menu,
    ensures
        ({
            let (n, cmd, fx) = mvu::updated(m, MsgView::Menu(menu_decl::Msg::Run), glyphs, time);
            &&& cmd == Cmd::Nothing
            &&& m.menu_selected == 0 ==> !n.on_menu && n.debug_log == m.debug_log && (
            m.app.driver is Some && !m.app.store.dialogs_loading ==> fx == seq![
                DoView::Ask(WantedView::TopDialogs),
            ])
            &&& m.menu_selected == 1 ==> n.on_menu && n.debug_log == !m.debug_log && fx == seq![
                DoView::Log(n.debug_log),
            ] && n.app == m.app
            &&& m.menu_selected > 1 ==> n == m && fx.len() == 0
        }),
        forall|i: usize|
            i < 2 ==> (#[trigger] mvu::updated(
                m,
                MsgView::Menu(menu_decl::Msg::Select(i)),
                glyphs,
                time,
            )).0.menu_selected == i,
        !mvu::updated(m, MsgView::Menu(menu_decl::Msg::Back), glyphs, time).0.on_menu,
{
}

/// The entries of the menu are asking for the list and turning the log on or off, and each says so.
pub proof fn the_menu_says_what_it_does(on: bool, lang: Lang)
    ensures
        menu_decl::all_entries().len() == 2,
        menu_decl::all_entries()[0] == menu_decl::Action::Refresh,
        menu_decl::all_entries()[1] == menu_decl::Action::DebugLog,
        menu_decl::entry_label(menu_decl::Action::DebugLog, true, lang) == "Log: ligado",
        menu_decl::entry_label(menu_decl::Action::DebugLog, false, lang) == "Log: desligado",
        lang == Lang::En ==> menu_decl::entry_label(menu_decl::Action::Refresh, on, lang)
            == "Refresh",
        lang == Lang::Pt ==> menu_decl::entry_label(menu_decl::Action::Refresh, on, lang)
            == "Atualizar",
{
}

/// A message of a login screen does what it says: submitting hands what the field holds to the
/// machine, going back empties the phone screen, and the mask is flipped.
pub proof fn a_message_of_the_login_is_carried_out(m: ModelView, glyphs: Seq<char>, time: Seq<char>)
    ensures
        ({
            let (n, cmd, fx) = mvu::updated(m, MsgView::Login(login_decl::Msg::Submit), glyphs, time);
            &&& cmd == Cmd::Nothing
            &&& n == m
            &&& m.app.login.screen matches login::ScreenView::Code { field, .. } ==> fx == seq![
                DoView::Machine(login::LoginActionView::SubmitCode(field.text)),
            ]
            &&& m.app.login.screen matches login::ScreenView::Password { field, .. } ==> fx == seq![
                DoView::Machine(
                    login::LoginActionView::SubmitPassword(vstd::utf8::encode_utf8(field.text)),
                ),
            ]
            &&& m.app.login.screen matches login::ScreenView::Phone { field, .. } ==> fx == seq![
                DoView::Machine(login::LoginActionView::SendCode(seq!['+'] + field.text)),
            ]
            &&& m.app.login.screen is Waiting ==> fx.len() == 0
        }),
        ({
            let (n, cmd, fx) = mvu::updated(
                m,
                MsgView::Login(login_decl::Msg::BackToPhone),
                glyphs,
                time,
            );
            &&& n.app.login.screen is Phone
            &&& login_laws::field_of(n.app.login.screen) matches Some(f)
            &&& f.text.len() == 0
            &&& login_laws::error_of(n.app.login.screen) is None
            &&& n.app.login.phone == m.app.login.phone
            &&& fx.len() == 0
            &&& cmd == Cmd::Nothing
        }),
        mvu::updated(m, MsgView::Login(login_decl::Msg::Quit), glyphs, time).1 == Cmd::Exit,
        m.app.login.screen matches login::ScreenView::Password { field, .. } ==> {
            let n = mvu::updated(m, MsgView::Login(login_decl::Msg::ToggleMask), glyphs, time).0;
            &&& n.app.login.screen matches login::ScreenView::Password { field: f, .. }
            &&& f.masked == !field.masked
            &&& f.text == field.text
        },
{
    login_laws::a_submission_is_what_the_field_holds(m.app.login.screen);
}

/// Leaving a picture leads to the conversation it was opened from.
pub proof fn a_picture_is_left_for_its_conversation(
    m: ModelView,
    i: usize,
    glyphs: Seq<char>,
    time: Seq<char>,
)
    requires
        m.app.screen == ScreenView::Viewer(i),
        i < m.app.store.chats.len(),
    ensures
        ({
            let (n, cmd, fx) = mvu::updated(m, MsgView::Viewer(viewer_decl::Msg::Back), glyphs, time);
            &&& n.app.screen matches ScreenView::Conversation(c) && c.chat == i
            &&& n.app.store == m.app.store
            &&& cmd == Cmd::Nothing
            &&& fx.len() == 0
        }),
{
}

/// What a widget makes of a key reaches the model: the row the list landed on is reported, the end of
/// the list asks for more, and what a field holds is what was typed.
pub proof fn what_a_widget_does_is_reported(
    m: ModelView,
    key: Key,
    mv: Moved,
    edit: Edit,
    glyphs: Seq<char>,
    row_h: int,
    viewport_h: int,
)
    requires
        !m.on_menu,
        key != Key::Down,
    ensures
        m.app.screen matches ScreenView::Chats(state) ==> {
            let (n, h, msg, fx) = mvu::leaf(
                m,
                key,
                Answer::Moved(mv),
                glyphs,
                row_h,
                viewport_h,
            );
            &&& h == mv.handled
            &&& mv.state.selected != state.selected ==> msg == Some(
                MsgView::Chats(chats_decl::Msg::Select(mv.state.selected)),
            )
            &&& mv.state.selected == state.selected ==> msg is None
            &&& n.app.screen is Chats
            &&& n.app.screen->Chats_0.scroll == mv.state.scroll
            &&& n.app.screen->Chats_0.selected == state.selected
            &&& fx.len() == 0
        },
        m.app.screen is Login && m.app.login.screen is Password ==> {
            let (n, h, msg, fx) = mvu::leaf(
                m,
                key,
                Answer::Edited(edit),
                glyphs,
                row_h,
                viewport_h,
            );
            &&& h == edit.handled
            &&& msg is None
            &&& login_laws::field_of(n.app.login.screen) == Some(edit.field@)
            &&& n.app.login.screen is Password
        },
        m.app.screen is Login && (m.app.login.screen is Phone || m.app.login.screen is Code) ==> {
            let (n, h, msg, fx) = mvu::leaf(
                m,
                key,
                Answer::Edited(edit),
                glyphs,
                row_h,
                viewport_h,
            );
            let letter = key is Char && !('0' <= key->Char_0 <= '9');
            &&& letter ==> n == m && h == Handled::Consumed
            &&& !letter ==> h == edit.handled && login_laws::field_of(n.app.login.screen) == Some(
                edit.field@,
            )
            &&& msg is None
        },
{
}

/// In the menu, what the list landed on is the entry reported.
pub proof fn the_menu_reports_its_entry(
    m: ModelView,
    key: Key,
    mv: Moved,
    glyphs: Seq<char>,
    row_h: int,
    viewport_h: int,
)
    requires
        m.on_menu,
    ensures
        ({
            let (n, h, msg, fx) = mvu::leaf(m, key, Answer::Moved(mv), glyphs, row_h, viewport_h);
            &&& n == m
            &&& h == mv.handled
            &&& fx.len() == 0
            &&& mv.state.selected != m.menu_selected ==> msg == Some(
                MsgView::Menu(menu_decl::Msg::Select(mv.state.selected)),
            )
            &&& mv.state.selected == m.menu_selected ==> msg is None
        }),
{
}

/// A row of the list says of its chat what the chat is: its name, its time, how many messages are
/// unread, and whether the last is one's own. There is one row for each chat, in their order.
pub proof fn a_row_says_what_its_chat_is(s: Seq<ChatView>, i: int)
    requires
        0 <= i < s.len(),
    ensures
        chats_decl::rows_of(s).len() == s.len(),
        chats_decl::rows_of(s)[i].name == s[i].name,
        chats_decl::rows_of(s)[i].time == s[i].time,
        chats_decl::rows_of(s)[i].unread == s[i].unread,
        chats_decl::rows_of(s)[i].last_outgoing == s[i].last_outgoing,
        chats_decl::rows_of(s)[i].preview == s[i].preview(),
        chats_decl::rows_of(s)[i].initials == s[i].initials(),
        chats_decl::rows_of(s)[i].color_seed == s[i].color_seed(),
{
}

// ---- the whole ------------------------------------------------------------------------------------

/// A wording is the English one in English and the Portuguese one in Portuguese.
pub proof fn a_wording_is_in_its_language(en: &'static str, pt: &'static str)
    ensures
        crate::strings::wording(Lang::En, en, pt) == en,
        crate::strings::wording(Lang::Pt, en, pt) == pt,
{
}

/// In the menu the keys are the menu's, whatever is behind it: its middle label runs the entry and its
/// right one goes back.
pub proof fn the_menu_has_the_keys(m: ModelView, key: Key, words: Words)
    requires
        m.on_menu,
        key != Key::End,
    ensures
        mvu::meaning(m, key, Some(Slot::Action), words) == Some(Msg::Menu(menu_decl::Msg::Run)),
        mvu::meaning(m, key, Some(Slot::Back), words) == Some(Msg::Menu(menu_decl::Msg::Back)),
        mvu::meaning(m, key, Some(Slot::Options), words) is None,
        mvu::meaning(m, key, None, words) is None,
        mvu::bar(m, words).options is None,
        mvu::bar(m, words).action == Some((words.select, Msg::Menu(menu_decl::Msg::Run))),
        mvu::bar(m, words).back == Some((words.back, Msg::Menu(menu_decl::Msg::Back))),
{
}

/// Without the menu the keys are those of the screen in front, under the labels it shows.
pub proof fn the_screen_in_front_has_the_keys(m: ModelView, key: Key, words: Words)
    requires
        !m.on_menu,
        key != Key::End,
    ensures
        m.app.screen is Chats ==> {
            &&& mvu::meaning(m, Key::Call, None, words) == Some(Msg::Chats(chats_decl::Msg::Open))
            &&& key != Key::Call ==> mvu::meaning(m, key, Some(Slot::Options), words) == Some(
                Msg::Chats(chats_decl::Msg::Options),
            )
            &&& mvu::meaning(m, key, Some(Slot::Action), words) == Some(
                Msg::Chats(chats_decl::Msg::Open),
            )
            &&& key != Key::Call ==> mvu::meaning(m, key, Some(Slot::Back), words) == Some(
                Msg::Chats(chats_decl::Msg::Quit),
            )
            &&& key != Key::Call ==> mvu::meaning(m, key, None, words) is None
            &&& mvu::bar(m, words).action == Some(("Abrir", Msg::Chats(chats_decl::Msg::Open)))
        },
        m.app.screen is Login ==> {
            &&& is_action(key) && !(m.app.login.screen is Waiting) ==> mvu::meaning(
                m,
                key,
                None,
                words,
            ) == Some(Msg::Login(login_decl::Msg::Submit))
            &&& key == Key::Softkey(Softkey::Right) && m.app.login.screen is Phone ==> mvu::meaning(
                m,
                key,
                None,
                words,
            ) == Some(Msg::Login(login_decl::Msg::Quit))
            &&& m.app.login.screen is Waiting ==> mvu::meaning(m, key, Some(Slot::Back), words)
                == Some(Msg::Login(login_decl::Msg::BackToPhone))
        },
        m.app.screen matches ScreenView::Conversation(c) ==> {
            &&& is_action(key) && c.focus == Focus::Composer ==> mvu::meaning(m, key, None, words)
                == Some(Msg::Conv(conv_decl::Msg::Send))
            &&& is_action(key) && c.focus == Focus::Transcript ==> mvu::meaning(m, key, None, words)
                == Some(Msg::Conv(conv_decl::Msg::Activate))
            &&& !is_action(key) ==> mvu::meaning(m, key, Some(Slot::Back), words) == Some(
                Msg::Conv(conv_decl::Msg::Back),
            )
            &&& !is_action(key) ==> mvu::meaning(m, key, Some(Slot::Options), words) == Some(
                Msg::Conv(conv_decl::Msg::Refresh),
            )
            &&& !is_action(key) ==> mvu::meaning(m, key, None, words) is None
            &&& mvu::bar(m, words).action is Some <==> c.composer.text.len() > 0
        },
        m.app.screen is Viewer ==> {
            &&& mvu::meaning(m, key, Some(Slot::Back), words) == Some(
                Msg::Viewer(viewer_decl::Msg::Back),
            )
            &&& mvu::meaning(m, key, None, words) is None
            &&& mvu::meaning(m, key, Some(Slot::Action), words) is None
            &&& mvu::bar(m, words).back == Some((words.back, Msg::Viewer(viewer_decl::Msg::Back)))
        },
{
}

/// What a conversation does with a key is what its widget does with it: the conversation after is the
/// one in front, what it asks for is reported, and its previews follow the cursor.
pub proof fn a_conversation_takes_its_keys(
    m: ModelView,
    c: ConvView,
    key: Key,
    answer: Answer,
    glyphs: Seq<char>,
    row_h: int,
    viewport_h: int,
)
    requires
        !m.on_menu,
        m.app.screen == ScreenView::Conversation(c),
        c.chat < m.app.store.chats.len(),
    ensures
        ({
            let (n, h, msg, fx) = mvu::leaf(m, key, answer, glyphs, row_h, viewport_h);
            let (to, h2, a) = conv::keyed(
                c,
                key,
                m.app.store.chats[c.chat as int],
                glyphs,
                m.app.lang,
                answer,
            );
            &&& n.app.screen == ScreenView::Conversation(to)
            &&& n.app.store == m.app.store
            &&& h == h2
            &&& a matches ConvActionView::Send(words) ==> msg == Some(
                MsgView::Conv(conv_decl::MsgView::SendTaken(words)),
            )
            &&& a matches ConvActionView::Copy(words) ==> msg == Some(
                MsgView::Conv(conv_decl::MsgView::Copy(words)),
            )
            &&& a matches ConvActionView::OpenLink(words) ==> msg == Some(
                MsgView::Conv(conv_decl::MsgView::OpenLink(words)),
            )
            &&& a matches ConvActionView::OpenMedia(i) ==> msg == Some(
                MsgView::Conv(conv_decl::MsgView::OpenMedia(i)),
            )
            &&& a is Back ==> msg == Some(MsgView::Conv(conv_decl::MsgView::Back))
            &&& a is Refresh ==> msg == Some(MsgView::Conv(conv_decl::MsgView::Refresh))
            &&& a is LoadMore ==> msg == Some(MsgView::Conv(conv_decl::MsgView::LoadMore))
            &&& a is Nothing && (to.note != c.note || (to.composer.text.len() == 0) != (
            c.composer.text.len() == 0)) ==> msg == Some(
                MsgView::Conv(conv_decl::MsgView::ViewStale),
            )
            &&& a is Nothing && to.note == c.note && (to.composer.text.len() == 0) == (
            c.composer.text.len() == 0) ==> msg is None
            &&& to.chat == c.chat ==> fx == seq![
                DoView::Previews { chat: c.chat, selected: to.state.selected },
            ]
        }),
{
}

/// A picture takes no key itself.
pub proof fn a_picture_takes_no_key(
    m: ModelView,
    key: Key,
    answer: Answer,
    glyphs: Seq<char>,
    row_h: int,
    viewport_h: int,
)
    requires
        !m.on_menu,
        m.app.screen is Viewer || (m.app.screen is Login && m.app.login.screen is Waiting),
    ensures
        mvu::leaf(m, key, answer, glyphs, row_h, viewport_h) == (
            m,
            Handled::Ignored,
            None::<MsgView>,
            Seq::<DoView>::empty(),
        ),
{
}

/// What is shown is of the screen in front: a conversation is titled by whom it is with and says what
/// is under way, and the menu shows its entries.
pub proof fn what_is_shown_is_in_front(
    r: mvu::Scene,
    m: ModelView,
    screen_w: int,
    metrics: Metrics,
    words: Words,
)
    requires
        mvu::shown(r, m, screen_w, metrics, words),
    ensures
        m.on_menu <==> r is Menu,
        r matches mvu::Scene::Menu(x) ==> {
            &&& x.title == words.options
            &&& x.rows@.len() == 2
            &&& x.selected == m.menu_selected
            &&& x.rows@[1] == (if m.debug_log {
                "Log: ligado"
            } else {
                "Log: desligado"
            })
            &&& m.app.lang == Lang::En ==> x.rows@[0] == "Refresh"
            &&& m.app.lang == Lang::Pt ==> x.rows@[0] == "Atualizar"
            &&& x.row_h == metrics.row_h
            &&& x.pad == metrics.pad
        },
        !m.on_menu ==> {
            &&& m.app.screen is Chats <==> r is Chats
            &&& m.app.screen is Login <==> r is Login
            &&& m.app.screen is Conversation <==> r is Conversation
            &&& m.app.screen is Viewer <==> r is Viewer
        },
        !m.on_menu ==> (m.app.screen matches ScreenView::Conversation(c) ==> (c.chat
            < m.app.store.chats.len() ==> {
            &&& r->Conversation_0.title@ == m.app.store.chats[c.chat as int].name
            &&& m.app.store.chats[c.chat as int].loading ==> (r->Conversation_0.detail
                matches Some(d) && d@ == "carregando…"@)
            &&& !m.app.store.chats[c.chat as int].loading && c.note is None
                ==> r->Conversation_0.detail is None
            &&& !m.app.store.chats[c.chat as int].loading && c.note is Some ==> (
            r->Conversation_0.detail matches Some(d) && Some(d@) == c.note)
            &&& r->Conversation_0.labels@.len() == 3
            &&& r->Conversation_0.labels@[0] is Some
            &&& r->Conversation_0.labels@[1] is Some <==> c.composer.text.len() > 0
            &&& r->Conversation_0.labels@[2] == Some(words.back)
        })),
        !m.on_menu && m.app.screen is Login ==> {
            let d = r->Login_0;
            let waiting = m.app.login.screen is Waiting;
            &&& d.labels@.len() == 3
            &&& d.labels@[2] == (if waiting {
                Some(words.cancel)
            } else {
                None
            })
            &&& m.app.login.screen is Code || m.app.login.screen is Password ==> (d.labels@[1]
                is Some <==> m.app.login.connected)
            &&& waiting <==> d.body is Waiting
            &&& d.body matches login_decl::Body::Form(f) ==> f@ == login_decl::form_of(
                login_decl::description(m.app.login),
                screen_w,
                metrics,
                m.app.lang,
            )
            &&& m.app.lang == Lang::Pt ==> (m.app.login.screen is Phone ==> d.detail@ == "entrar"@)
                && (m.app.login.screen is Code ==> d.detail@ == "código"@) && (
            m.app.login.screen is Password ==> d.detail@ == "senha"@)
        },
        !m.on_menu && m.app.screen is Viewer ==> {
            &&& m.app.lang == Lang::En ==> r->Viewer_0.title == "Photo"
            &&& m.app.lang == Lang::Pt ==> r->Viewer_0.title == "Foto"
            &&& r->Viewer_0.labels@ == seq![None::<&'static str>, None, Some(words.back)]
        },
        !m.on_menu && m.app.screen is Chats ==> {
            &&& m.app.store.dialogs_loading ==> r->Chats_0.detail@ == "carregando…"@
            &&& !m.app.store.dialogs_loading ==> r->Chats_0.detail@ == m.app.store.status
            &&& r->Chats_0.body is Empty <==> m.app.store.chats.len() == 0
            &&& r->Chats_0.body matches chats_decl::Body::List { selected, .. } ==> selected
                == m.app.screen->Chats_0.selected
        },
        !m.on_menu && m.app.screen is Login ==> (m.app.login.screen
            matches login::ScreenView::Waiting(said) ==> r->Login_0.detail@ == said@ && (
        r->Login_0.body matches login_decl::Body::Waiting(w) && w@ == said@)),
{
}

/// What a key asks of the toolkit is of the field or the list in front; a screen without either asks
/// for nothing.
pub proof fn a_key_asks_the_widget_in_front(s: AppView, key: Key, row_h: int, viewport_h: int)
    ensures
        s.screen is Viewer ==> app::key_ask(s, key, row_h, viewport_h) == Ask::Nothing,
        s.screen is Login ==> {
            let letter = key is Char && !('0' <= key->Char_0 <= '9');
            app::key_ask(s, key, row_h, viewport_h) == (if s.login.screen is Password || ((
            s.login.screen is Phone || s.login.screen is Code) && !letter) {
                Ask::Field
            } else {
                Ask::Nothing
            })
        },
        s.screen is Chats && key != Key::Down ==> app::key_ask(s, key, row_h, viewport_h)
            == Ask::List,
        s.screen matches ScreenView::Conversation(c) ==> app::key_ask(s, key, row_h, viewport_h)
            == conv::key_ask(c, key),
{
}

/// In a conversation the field is asked while the keys are at the composer, and the list while they
/// are in the transcript; a key that is spent already asks for nothing.
pub proof fn a_conversation_asks_where_the_keys_are(s: ConvView, key: Key)
    requires
        s.link is None,
        s.links_here().len() == 0,
    ensures
        is_action(key) || key == Key::Softkey(Softkey::Left) || key == Key::Softkey(Softkey::Right)
            ==> conv::key_ask(s, key) == Ask::Nothing,
        s.focus == Focus::Composer ==> (conv::key_ask(s, key) == Ask::Field || conv::key_ask(s, key)
            == Ask::Nothing),
        s.focus == Focus::Transcript ==> conv::key_ask(s, key) != Ask::Field,
        s.focus == Focus::Transcript && key == Key::Up && s.state.selected > 0 ==> conv::key_ask(
            s,
            key,
        ) == Ask::List,
        s.focus == Focus::Transcript && key == Key::Down && s.transcript is Some && s.state.selected
            + 1 < s.transcript->0.laid.len() ==> conv::key_ask(s, key) == Ask::List,
{
}

} // verus!
