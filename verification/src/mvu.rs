//! The application as a model, an update and a view.
//!
//! A key is offered to the screen in front first, as what its bar says. What the screen does not
//! claim goes to the widgets, which leave a message where something came of it. Every message goes
//! through one update.

use crate::app;
use crate::app::{just, none, App, AppView, Do, DoView, Screen, ScreenView};
use crate::chats;
use crate::chats::ChatListAction;
use crate::chats_decl;
use crate::conv;
use crate::conv::{ConvAction, ConvActionView, ConvView};
use crate::conv_decl;
use crate::labels::Atlas;
use crate::login;
use crate::login::{LoginAction, LoginActionView, LoginView};
use crate::login_decl;
use crate::menu_decl;
use crate::pages;
use crate::pages::hhmm;
use crate::samples;
use crate::ui;
use crate::ui::{Answer, Handled, Key, ListState, Metrics, Slot, Softkeys, Words};
use crate::viewer_decl;
use vstd::prelude::*;
use vstd::string::*;

verus! {

/// Everything the application knows.
#[derive(Debug)]
pub struct Model {
    pub app: App,
    /// The row the cursor of the chat list was last put on, for while another screen is in front.
    pub last_selected: usize,
    /// Whether the menu is open.
    pub on_menu: bool,
    /// The entry the cursor of the menu is on.
    pub menu_selected: usize,
    /// Whether the log is on.
    pub debug_log: bool,
}

/// The values of a [`Model`].
#[verifier::ext_equal]
pub struct ModelView {
    pub app: AppView,
    pub last_selected: usize,
    pub on_menu: bool,
    pub menu_selected: usize,
    pub debug_log: bool,
}

impl ModelView {
    /// The row the cursor of the chat list is on, whatever is in front.
    pub open spec fn chats_selected(self) -> usize {
        match self.app.screen {
            ScreenView::Chats(state) => state.selected,
            _ => self.last_selected,
        }
    }
}

impl View for Model {
    type V = ModelView;

    open spec fn view(&self) -> ModelView {
        ModelView {
            app: self.app@,
            last_selected: self.last_selected,
            on_menu: self.on_menu,
            menu_selected: self.menu_selected,
            debug_log: self.debug_log,
        }
    }
}

/// What can happen to it.
#[derive(Debug, PartialEq, Eq)]
pub enum Msg {
    Chats(chats_decl::Msg),
    Login(login_decl::Msg),
    Conv(conv_decl::Msg),
    Viewer(viewer_decl::Msg),
    Menu(menu_decl::Msg),
    /// Leave the application. The red key, from any screen.
    Exit,
    /// Something behind the screens changed the model, so what is shown no longer describes it.
    Touched,
}

/// The values of a [`Msg`].
pub enum MsgView {
    Chats(chats_decl::Msg),
    Login(login_decl::Msg),
    Conv(conv_decl::MsgView),
    Viewer(viewer_decl::Msg),
    Menu(menu_decl::Msg),
    Exit,
    Touched,
}

impl View for Msg {
    type V = MsgView;

    open spec fn view(&self) -> MsgView {
        match *self {
            Msg::Chats(m) => MsgView::Chats(m),
            Msg::Login(m) => MsgView::Login(m),
            Msg::Conv(m) => MsgView::Conv(m@),
            Msg::Viewer(m) => MsgView::Viewer(m),
            Msg::Menu(m) => MsgView::Menu(m),
            Msg::Exit => MsgView::Exit,
            Msg::Touched => MsgView::Touched,
        }
    }
}

/// The values of a message that may not be there.
pub open spec fn msg_opt(m: Option<Msg>) -> Option<MsgView> {
    match m {
        Some(m) => Some(m@),
        None => None,
    }
}

/// What an update asks of the host.
#[derive(Clone, Copy, Debug, PartialEq, Eq, Structural)]
pub enum Cmd {
    Nothing,
    /// Close the application.
    Exit,
}

/// The application.
#[derive(Clone, Copy, Debug)]
pub struct Tg;

/// What a screen is described as to the toolkit.
#[derive(Debug)]
pub enum Scene {
    Menu(menu_decl::Menu),
    Chats(chats_decl::Listing),
    Login(login_decl::Described),
    Conversation(conv_decl::Scene),
    Viewer(viewer_decl::Frame),
}

// ---- keys -----------------------------------------------------------------------------------------

/// The bar of the screen in front: the menu over everything else.
pub open spec fn bar(m: ModelView, words: Words) -> Softkeys<Msg> {
    if m.on_menu {
        ui::mapped(menu_decl::bar(words), |x: menu_decl::Msg| Msg::Menu(x))
    } else {
        match m.app.screen {
            ScreenView::Chats(_) => ui::mapped(
                chats_decl::bar(m.app.store.dialogs_loading),
                |x: chats_decl::Msg| Msg::Chats(x),
            ),
            ScreenView::Login => ui::mapped(
                login_decl::bar(login_decl::description(m.app.login), words, m.app.lang),
                |x: login_decl::Msg| Msg::Login(x),
            ),
            ScreenView::Conversation(c) => ui::mapped(
                conv_decl::bar(c.composer.text.len() == 0, words, m.app.lang),
                |x: conv_decl::Msg| Msg::Conv(x),
            ),
            ScreenView::Viewer(_) => ui::mapped(
                viewer_decl::bar(words),
                |x: viewer_decl::Msg| Msg::Viewer(x),
            ),
        }
    }
}

/// What a key means, before a widget sees it. `slot` is the slot of the bar it presses.
pub open spec fn meaning(m: ModelView, key: Key, slot: Option<Slot>, words: Words) -> Option<Msg> {
    if key == Key::End {
        Some(Msg::Exit)
    } else if m.on_menu {
        match menu_decl::bar(words).answer(slot) {
            Some(x) => Some(Msg::Menu(x)),
            None => None,
        }
    } else {
        match m.app.screen {
            ScreenView::Chats(_) => match chats_decl::meaning(
                m.app.store.dialogs_loading,
                key,
                slot,
            ) {
                Some(x) => Some(Msg::Chats(x)),
                None => None,
            },
            ScreenView::Login => match login_decl::meaning(
                login_decl::description(m.app.login),
                key,
                slot,
                words,
                m.app.lang,
            ) {
                Some(x) => Some(Msg::Login(x)),
                None => None,
            },
            ScreenView::Conversation(c) => match conv_decl::meaning(
                c.focus,
                c.composer.text.len() == 0,
                key,
                slot,
                words,
                m.app.lang,
            ) {
                Some(x) => Some(Msg::Conv(x)),
                None => None,
            },
            ScreenView::Viewer(_) => match viewer_decl::bar(words).answer(slot) {
                Some(x) => Some(Msg::Viewer(x)),
                None => None,
            },
        }
    }
}

/// What the widgets of the screen in front make of a key it did not claim: what the key changed, what
/// came of it, and what is to be done.
pub open spec fn leaf(
    m: ModelView,
    key: Key,
    answer: Answer,
    glyphs: Seq<char>,
    row_h: int,
    viewport_h: int,
) -> (ModelView, Handled, Option<MsgView>, Seq<DoView>) {
    if m.on_menu {
        match answer {
            Answer::Moved(mv) => (
                m,
                mv.handled,
                if mv.state.selected == m.menu_selected {
                    None
                } else {
                    Some(MsgView::Menu(menu_decl::Msg::Select(mv.state.selected)))
                },
                seq![],
            ),
            _ => (m, Handled::Ignored, None, seq![]),
        }
    } else {
        match m.app.screen {
            ScreenView::Chats(state) => {
                let (to, h, a) = chats::list_keyed(
                    state,
                    key,
                    m.app.store.chats.len() as int,
                    row_h,
                    viewport_h,
                    answer,
                );
                (
                    ModelView {
                        app: m.app.showing(
                            ScreenView::Chats(ListState { scroll: to.scroll, ..state }),
                        ),
                        ..m
                    },
                    h,
                    if a == ChatListAction::LoadMore {
                        Some(MsgView::Chats(chats_decl::Msg::LoadMore))
                    } else if to.selected != state.selected {
                        Some(MsgView::Chats(chats_decl::Msg::Select(to.selected)))
                    } else {
                        None
                    },
                    seq![],
                )
            },
            ScreenView::Login => {
                let s = m.app.login.screen;
                if s is Waiting {
                    (m, Handled::Ignored, None, seq![])
                } else if login::swallowed(s, key) {
                    (m, Handled::Consumed, None, seq![])
                } else {
                    match answer {
                        Answer::Edited(e) => (
                            ModelView {
                                app: AppView {
                                    login: LoginView {
                                        screen: login::with_field(s, e.field@),
                                        ..m.app.login
                                    },
                                    ..m.app
                                },
                                ..m
                            },
                            e.handled,
                            None,
                            seq![],
                        ),
                        _ => (m, Handled::Ignored, None, seq![]),
                    }
                }
            },
            ScreenView::Conversation(c) => if c.chat < m.app.store.chats.len() {
                let (to, h, a) = conv::keyed(
                    c,
                    key,
                    m.app.store.chats[c.chat as int],
                    glyphs,
                    m.app.lang,
                    answer,
                );
                let n = m.app.showing(ScreenView::Conversation(to));
                (
                    ModelView { app: n, ..m },
                    h,
                    if !(a is Nothing) {
                        match conv_decl::message_of(a) {
                            Some(x) => Some(MsgView::Conv(x)),
                            None => None,
                        }
                    } else if conv_decl::state_of(to) == conv_decl::state_of(c) {
                        None
                    } else {
                        Some(MsgView::Conv(conv_decl::MsgView::ViewStale))
                    },
                    app::window(n, c.chat),
                )
            } else {
                (m, Handled::Ignored, None, seq![])
            },
            ScreenView::Viewer(_) => (m, Handled::Ignored, None, seq![]),
        }
    }
}

// ---- the update -----------------------------------------------------------------------------------

/// The last index of a list, or zero where there is none.
pub open spec fn last_of(n: nat) -> usize {
    if n == 0 {
        0
    } else {
        (n - 1) as usize
    }
}

/// An index kept inside a list.
pub open spec fn kept_inside(i: usize, n: nat) -> usize {
    if i < last_of(n) {
        i
    } else {
        last_of(n)
    }
}

/// An application with the cursor of its list on a row, where the list is in front.
pub open spec fn on_row(s: AppView, row: usize) -> AppView {
    match s.screen {
        ScreenView::Chats(state) => s.showing(
            ScreenView::Chats(ListState { selected: row, ..state }),
        ),
        _ => s,
    }
}

/// What a message of the chat list comes to, whatever is in front.
pub open spec fn chats_updated(m: ModelView, x: chats_decl::Msg) -> (ModelView, Cmd, Seq<DoView>) {
    match x {
        chats_decl::Msg::Select(i) => {
            let row = kept_inside(i, m.app.store.chats.len());
            (
                ModelView { app: on_row(m.app, row), last_selected: row, ..m },
                Cmd::Nothing,
                seq![],
            )
        },
        chats_decl::Msg::Open => {
            let row = m.chats_selected();
            if row < m.app.store.chats.len() {
                (
                    ModelView { last_selected: row, ..m },
                    Cmd::Nothing,
                    seq![DoView::ReadTail(row)],
                )
            } else {
                (m, Cmd::Nothing, seq![])
            }
        },
        chats_decl::Msg::Refresh => {
            let (n, w) = app::top_dialogs(m.app);
            (ModelView { app: n, ..m }, Cmd::Nothing, app::asking(w))
        },
        chats_decl::Msg::Options => (
            ModelView { on_menu: true, menu_selected: 0, ..m },
            Cmd::Nothing,
            seq![],
        ),
        chats_decl::Msg::LoadMore => {
            let (n, w) = app::more_dialogs(m.app);
            (ModelView { app: n, ..m }, Cmd::Nothing, app::asking(w))
        },
        chats_decl::Msg::Quit => (m, Cmd::Exit, seq![]),
    }
}

/// What a message of the menu comes to, whatever is in front. Refreshing closes it over its own
/// answer; the switch stays on screen, since its label is the answer.
pub open spec fn menu_updated(m: ModelView, x: menu_decl::Msg) -> (ModelView, Cmd, Seq<DoView>) {
    match x {
        menu_decl::Msg::Select(i) => (
            ModelView { menu_selected: kept_inside(i, menu_decl::all_entries().len()), ..m },
            Cmd::Nothing,
            seq![],
        ),
        menu_decl::Msg::Run => if m.menu_selected >= menu_decl::all_entries().len() {
            (m, Cmd::Nothing, seq![])
        } else {
            match menu_decl::all_entries()[m.menu_selected as int] {
                menu_decl::Action::Refresh => {
                    let (n, w) = app::top_dialogs(m.app);
                    (ModelView { app: n, on_menu: false, ..m }, Cmd::Nothing, app::asking(w))
                },
                menu_decl::Action::DebugLog => (
                    ModelView { debug_log: !m.debug_log, ..m },
                    Cmd::Nothing,
                    seq![DoView::Log(!m.debug_log)],
                ),
            }
        },
        menu_decl::Msg::Back => (ModelView { on_menu: false, ..m }, Cmd::Nothing, seq![]),
    }
}

/// What a message of a login screen comes to.
pub open spec fn login_updated(m: ModelView, x: login_decl::Msg) -> (ModelView, Cmd, Seq<DoView>) {
    match x {
        login_decl::Msg::Submit => (
            m,
            Cmd::Nothing,
            match login::submission(m.app.login.screen) {
                LoginActionView::Nothing => seq![],
                a => seq![DoView::Machine(a)],
            },
        ),
        login_decl::Msg::BackToPhone => (
            ModelView {
                app: AppView {
                    login: LoginView { screen: login::at_phone(), ..m.app.login },
                    ..m.app
                },
                ..m
            },
            Cmd::Nothing,
            seq![],
        ),
        login_decl::Msg::ToggleMask => (
            ModelView {
                app: AppView {
                    login: LoginView {
                        screen: login::mask_flipped(m.app.login.screen),
                        ..m.app.login
                    },
                    ..m.app
                },
                ..m
            },
            Cmd::Nothing,
            seq![],
        ),
        login_decl::Msg::Quit => (m, Cmd::Exit, seq![]),
    }
}

/// What a message of a conversation asks of it: the conversation after, and the action.
pub open spec fn conv_answered(
    c: ConvView,
    x: conv_decl::MsgView,
    chat: crate::model::ChatView,
    glyphs: Seq<char>,
) -> (ConvView, ConvActionView) {
    match x {
        conv_decl::MsgView::Activate => conv::activated(c, chat, glyphs),
        conv_decl::MsgView::Send => conv::dispatched(c),
        conv_decl::MsgView::SendTaken(words) => (c, ConvActionView::Send(words)),
        conv_decl::MsgView::Back => (c, ConvActionView::Back),
        conv_decl::MsgView::Refresh => (c, ConvActionView::Refresh),
        conv_decl::MsgView::LoadMore => (c, ConvActionView::LoadMore),
        conv_decl::MsgView::OpenMedia(i) => (c, ConvActionView::OpenMedia(i)),
        conv_decl::MsgView::OpenLink(url) => (c, ConvActionView::OpenLink(url)),
        conv_decl::MsgView::Copy(words) => (c, ConvActionView::Copy(words)),
        conv_decl::MsgView::ViewStale => (c, ConvActionView::Nothing),
    }
}

/// What a message of the conversation in front comes to. Without one it comes to nothing.
pub open spec fn conv_updated(
    m: ModelView,
    x: conv_decl::MsgView,
    glyphs: Seq<char>,
    time: Seq<char>,
) -> (ModelView, Cmd, Seq<DoView>) {
    match m.app.screen {
        ScreenView::Conversation(c) => if c.chat < m.app.store.chats.len() {
            let (to, a) = conv_answered(c, x, m.app.store.chats[c.chat as int], glyphs);
            let (n, _, fx) = app::conv_acted(
                m.app.showing(ScreenView::Conversation(to)),
                c.chat,
                Handled::Consumed,
                a,
                time,
            );
            (ModelView { app: n, ..m }, Cmd::Nothing, fx)
        } else {
            (m, Cmd::Nothing, seq![])
        },
        _ => (m, Cmd::Nothing, seq![]),
    }
}

/// What a message comes to.
pub open spec fn updated(m: ModelView, msg: MsgView, glyphs: Seq<char>, time: Seq<char>) -> (
    ModelView,
    Cmd,
    Seq<DoView>,
) {
    match msg {
        MsgView::Touched => (m, Cmd::Nothing, seq![]),
        MsgView::Exit => (m, Cmd::Exit, seq![]),
        MsgView::Chats(x) => chats_updated(m, x),
        MsgView::Menu(x) => menu_updated(m, x),
        MsgView::Login(x) => login_updated(m, x),
        MsgView::Conv(x) => conv_updated(m, x, glyphs, time),
        MsgView::Viewer(viewer_decl::Msg::Back) => match m.app.screen {
            ScreenView::Viewer(i) => (
                ModelView { app: app::viewer_keyed(m.app, i, Handled::Consumed, true).0, ..m },
                Cmd::Nothing,
                seq![],
            ),
            _ => (m, Cmd::Nothing, seq![]),
        },
    }
}

// ---- the view -------------------------------------------------------------------------------------

/// Whether a scene is what a model is described as.
pub open spec fn shown(
    r: Scene,
    m: ModelView,
    screen_w: int,
    metrics: Metrics,
    words: Words,
) -> bool {
    if m.on_menu {
        r matches Scene::Menu(x) && menu_decl::offers(
            x,
            m.menu_selected,
            m.debug_log,
            words,
            m.app.lang,
            metrics,
        )
    } else {
        match m.app.screen {
            ScreenView::Chats(state) => r matches Scene::Chats(x) && chats_decl::lists(
                x,
                chats_decl::rows_of(m.app.store.chats),
                m.app.store.dialogs_loading,
                m.app.store.status,
                state.selected,
                metrics,
            ),
            ScreenView::Login => r matches Scene::Login(x) && login_decl::describes(
                x,
                login_decl::description(m.app.login),
                screen_w,
                metrics,
                words,
                m.app.lang,
            ),
            ScreenView::Conversation(c) => {
                &&& r is Conversation
                &&& r->Conversation_0.title@ == (if c.chat < m.app.store.chats.len() {
                    m.app.store.chats[c.chat as int].name
                } else {
                    seq![]
                })
                &&& ui::words_opt(r->Conversation_0.detail) == (if c.chat
                    >= m.app.store.chats.len() {
                    None
                } else if m.app.store.chats[c.chat as int].loading {
                    Some("carregando…"@)
                } else {
                    c.note
                })
                &&& r->Conversation_0.labels@ == ui::labels_of(
                    conv_decl::bar(c.composer.text.len() == 0, words, m.app.lang),
                )
            },
            ScreenView::Viewer(_) => r matches Scene::Viewer(x) && x.title
                == crate::strings::wording(m.app.lang, "Photo", "Foto") && x.labels@
                == ui::labels_of(viewer_decl::bar(words)),
        }
    }
}

impl Model {
    /// A model of an application, with the menu closed.
    pub fn new(app: App, debug_log: bool) -> (r: Model)
        ensures
            r@ == (ModelView {
                app: app@,
                last_selected: 0,
                on_menu: false,
                menu_selected: 0,
                debug_log,
            }),
    {
        Model { app, last_selected: 0, on_menu: false, menu_selected: 0, debug_log }
    }

    /// The row the cursor of the chat list is on, whatever is in front.
    pub fn chats_selected(&self) -> (r: usize)
        ensures
            r == self@.chats_selected(),
    {
        match &self.app.screen {
            Screen::Chats(list) => list.state.selected,
            _ => self.last_selected,
        }
    }
}

fn inside(i: usize, n: usize) -> (r: usize)
    ensures
        r == kept_inside(i, n as nat),
{
    let last: usize = if n == 0 {
        0
    } else {
        n - 1
    };
    if i < last {
        i
    } else {
        last
    }
}

fn of_menu(x: menu_decl::Msg) -> (r: Msg)
    ensures
        r == Msg::Menu(x),
{
    Msg::Menu(x)
}

fn of_chats(x: chats_decl::Msg) -> (r: Msg)
    ensures
        r == Msg::Chats(x),
{
    Msg::Chats(x)
}

fn of_login(x: login_decl::Msg) -> (r: Msg)
    ensures
        r == Msg::Login(x),
{
    Msg::Login(x)
}

fn of_conv(x: conv_decl::Msg) -> (r: Msg)
    ensures
        r == Msg::Conv(x),
{
    Msg::Conv(x)
}

fn of_viewer(x: viewer_decl::Msg) -> (r: Msg)
    ensures
        r == Msg::Viewer(x),
{
    Msg::Viewer(x)
}

impl Tg {
    /// The samples, with no connection.
    pub fn init() -> (r: Model)
        ensures
            r@ == (ModelView {
                app: app::started(
                    None,
                    samples::sample_store(),
                    login::new_login(login::at_phone(), 0, true),
                    ScreenView::Chats(ListState { selected: 0, scroll: 0 }),
                ),
                last_selected: 0,
                on_menu: false,
                menu_selected: 0,
                debug_log: false,
            }),
    {
        Model::new(App::mock(), false)
    }

    /// What the application is called.
    pub fn title() -> (r: &'static str)
        ensures
            r == "Telegram",
    {
        "Telegram"
    }

    /// The bar of the screen in front.
    pub fn keys(m: &Model, words: Words) -> (r: Softkeys<Msg>)
        ensures
            r == bar(m@, words),
    {
        if m.on_menu {
            return menu_decl::softkeys(words).map(of_menu);
        }
        match &m.app.screen {
            Screen::Chats(_) => chats_decl::softkeys(m.app.store.dialogs_loading).map(of_chats),
            Screen::Login => {
                let state = login_decl::State::of(&m.app.login);
                login_decl::softkeys(&state, words, m.app.lang).map(of_login)
            },
            Screen::Conversation(c) => conv_decl::softkeys(
                c.composer.is_empty(),
                words,
                m.app.lang,
            ).map(of_conv),
            Screen::Viewer(_) => viewer_decl::softkeys(words).map(of_viewer),
        }
    }

    /// What a key means, before a widget sees it. The red key leaves, from any screen and with any
    /// text half typed, so it is read before anything that could want it.
    pub fn on_key(m: &Model, key: Key, slot: Option<Slot>, words: Words) -> (r: Option<Msg>)
        ensures
            r == meaning(m@, key, slot, words),
    {
        if key == Key::End {
            return Some(Msg::Exit);
        }
        if m.on_menu {
            return match menu_decl::on_key(slot, words) {
                Some(x) => Some(Msg::Menu(x)),
                None => None,
            };
        }
        match &m.app.screen {
            Screen::Chats(_) => match chats_decl::on_key(m.app.store.dialogs_loading, key, slot) {
                Some(x) => Some(Msg::Chats(x)),
                None => None,
            },
            Screen::Login => {
                let state = login_decl::State::of(&m.app.login);
                match login_decl::on_key(&state, key, slot, words, m.app.lang) {
                    Some(x) => Some(Msg::Login(x)),
                    None => None,
                }
            },
            Screen::Conversation(c) => match conv_decl::on_key(
                c.focus,
                c.composer.is_empty(),
                key,
                slot,
                words,
                m.app.lang,
            ) {
                Some(x) => Some(Msg::Conv(x)),
                None => None,
            },
            Screen::Viewer(_) => match viewer_decl::on_key(slot, words) {
                Some(x) => Some(Msg::Viewer(x)),
                None => None,
            },
        }
    }

    /// What the widgets make of a key the screen did not claim, given what the toolkit answered.
    pub fn leaf_key(
        m: &mut Model,
        key: Key,
        answer: Answer,
        font: &Atlas,
        row_h: i32,
        viewport_h: i32,
    ) -> (r: (Handled, Option<Msg>, Vec<Do>))
        ensures
            (final(m)@, r.0, msg_opt(r.1), app::do_views(r.2@)) == leaf(
                old(m)@,
                key,
                answer,
                font.glyphs@,
                row_h as int,
                viewport_h as int,
            ),
    {
        let ghost before = m@;
        if m.on_menu {
            return match answer {
                Answer::Moved(mv) => {
                    let msg = if mv.state.selected == m.menu_selected {
                        None
                    } else {
                        Some(Msg::Menu(menu_decl::Msg::Select(mv.state.selected)))
                    };
                    (mv.handled, msg, none())
                },
                _ => (Handled::Ignored, None, none()),
            };
        }
        let on_login: bool = match &m.app.screen {
            Screen::Login => true,
            _ => false,
        };
        if on_login {
            return Tg::login_leaf(m, key, answer);
        }
        match &mut m.app.screen {
            Screen::Chats(list) => {
                let was: usize = list.state.selected;
                let (handled, action) = list.handle_key(
                    key,
                    &m.app.store,
                    row_h,
                    viewport_h,
                    answer,
                );
                let at: usize = list.state.selected;
                list.state.selected = was;
                assert(m@ =~= leaf(
                    before,
                    key,
                    answer,
                    font.glyphs@,
                    row_h as int,
                    viewport_h as int,
                ).0);
                let msg = if action == ChatListAction::LoadMore {
                    Some(Msg::Chats(chats_decl::Msg::LoadMore))
                } else if at != was {
                    Some(Msg::Chats(chats_decl::Msg::Select(at)))
                } else {
                    None
                };
                (handled, msg, none())
            },
            Screen::Conversation(c) => {
                let i: usize = c.chat;
                if i >= m.app.store.chats.len() {
                    return (Handled::Ignored, None, none());
                }
                assert(before.app.store.chats[i as int] == m.app.store.chats@[i as int]@);
                let was = conv_decl::ViewState::of(c);
                let (handled, action) = c.handle_key(
                    key,
                    &m.app.store.chats[i],
                    font,
                    m.app.lang,
                    answer,
                );
                let now = conv_decl::ViewState::of(c);
                let msg = match conv_decl::report(action, &was, &now) {
                    Some(x) => Some(Msg::Conv(x)),
                    None => None,
                };
                assert(m@.app =~= before.app.showing(m@.app.screen));
                let fx = m.app.window_previews(i);
                (handled, msg, fx)
            },
            _ => (Handled::Ignored, None, none()),
        }
    }

    fn login_leaf(m: &mut Model, key: Key, answer: Answer) -> (r: (
        Handled,
        Option<Msg>,
        Vec<Do>,
    ))
        requires
            !old(m)@.on_menu,
            old(m)@.app.screen is Login,
        ensures
            (final(m)@, r.0, msg_opt(r.1), app::do_views(r.2@)) == leaf(
                old(m)@,
                key,
                answer,
                seq![],
                0,
                0,
            ),
    {
        let ghost before = m@;
        if m.app.login.is_waiting() {
            return (Handled::Ignored, None, none());
        }
        if !m.app.login.asks_field(key) {
            return (Handled::Consumed, None, none());
        }
        match answer {
            Answer::Edited(e) => {
                m.app.login.put_field(e.field);
                assert(m@.app =~= (AppView { login: m@.app.login, ..before.app }));
                (e.handled, None, none())
            },
            _ => (Handled::Ignored, None, none()),
        }
    }

    fn update_chats(m: &mut Model, x: chats_decl::Msg) -> (r: (Cmd, Vec<Do>))
        ensures
            (final(m)@, r.0, app::do_views(r.1@)) == chats_updated(old(m)@, x),
    {
        let ghost before = m@;
        match x {
            chats_decl::Msg::Select(i) => {
                // The page may have become shorter since the cursor moved.
                let row: usize = inside(i, m.app.store.chats.len());
                if let Screen::Chats(list) = &mut m.app.screen {
                    list.state.selected = row;
                }
                m.last_selected = row;
                assert(m@.app =~= on_row(before.app, row));
                assert(m@ =~= chats_updated(before, x).0);
                (Cmd::Nothing, none())
            },
            chats_decl::Msg::Open => {
                let row: usize = m.chats_selected();
                if row < m.app.store.chats.len() {
                    m.last_selected = row;
                    return (Cmd::Nothing, just(Do::ReadTail(row)));
                }
                (Cmd::Nothing, none())
            },
            chats_decl::Msg::Refresh => {
                let w = m.app.refresh_dialogs();
                (Cmd::Nothing, app::ask(w))
            },
            chats_decl::Msg::Options => {
                m.on_menu = true;
                m.menu_selected = 0;
                (Cmd::Nothing, none())
            },
            chats_decl::Msg::LoadMore => {
                let w = m.app.load_more_dialogs();
                (Cmd::Nothing, app::ask(w))
            },
            chats_decl::Msg::Quit => (Cmd::Exit, none()),
        }
    }

    fn update_menu(m: &mut Model, x: menu_decl::Msg) -> (r: (Cmd, Vec<Do>))
        ensures
            (final(m)@, r.0, app::do_views(r.1@)) == menu_updated(old(m)@, x),
    {
        match x {
            menu_decl::Msg::Select(i) => {
                m.menu_selected = inside(i, menu_decl::entries().len());
                (Cmd::Nothing, none())
            },
            menu_decl::Msg::Run => {
                let entries = menu_decl::entries();
                if m.menu_selected >= entries.len() {
                    return (Cmd::Nothing, none());
                }
                match entries[m.menu_selected] {
                    menu_decl::Action::Refresh => {
                        let w = m.app.refresh_dialogs();
                        m.on_menu = false;
                        (Cmd::Nothing, app::ask(w))
                    },
                    menu_decl::Action::DebugLog => {
                        m.debug_log = !m.debug_log;
                        (Cmd::Nothing, just(Do::Log(m.debug_log)))
                    },
                }
            },
            menu_decl::Msg::Back => {
                m.on_menu = false;
                (Cmd::Nothing, none())
            },
        }
    }

    fn update_login(m: &mut Model, x: login_decl::Msg) -> (r: (Cmd, Vec<Do>))
        ensures
            (final(m)@, r.0, app::do_views(r.1@)) == login_updated(old(m)@, x),
    {
        let ghost before = m@;
        match x {
            login_decl::Msg::Submit => match m.app.login.submission() {
                LoginAction::Nothing => (Cmd::Nothing, none()),
                a => (Cmd::Nothing, just(Do::Machine(a))),
            },
            login_decl::Msg::BackToPhone => {
                m.app.login.show_phone();
                assert(m@.app =~= login_updated(before, x).0.app);
                (Cmd::Nothing, none())
            },
            login_decl::Msg::ToggleMask => {
                m.app.login.toggle_mask();
                assert(m@.app =~= login_updated(before, x).0.app);
                (Cmd::Nothing, none())
            },
            login_decl::Msg::Quit => (Cmd::Exit, none()),
        }
    }

    fn update_conv(m: &mut Model, x: conv_decl::Msg, font: &Atlas, time: String) -> (r: (
        Cmd,
        Vec<Do>,
    ))
        ensures
            (final(m)@, r.0, app::do_views(r.1@)) == conv_updated(
                old(m)@,
                x@,
                font.glyphs@,
                time@,
            ),
    {
        let ghost before = m@;
        let ghost said = x@;
        match &mut m.app.screen {
            Screen::Conversation(c) => {
                let i: usize = c.chat;
                if i >= m.app.store.chats.len() {
                    return (Cmd::Nothing, none());
                }
                assert(before.app.store.chats[i as int] == m.app.store.chats@[i as int]@);
                let action = match x {
                    conv_decl::Msg::Activate => c.activate(&m.app.store.chats[i], font),
                    conv_decl::Msg::Send => c.dispatch(),
                    conv_decl::Msg::SendTaken(words) => ConvAction::Send(words),
                    conv_decl::Msg::Back => ConvAction::Back,
                    conv_decl::Msg::Refresh => ConvAction::Refresh,
                    conv_decl::Msg::LoadMore => ConvAction::LoadMore,
                    conv_decl::Msg::OpenMedia(n) => ConvAction::OpenMedia(n),
                    conv_decl::Msg::OpenLink(url) => ConvAction::OpenLink(url),
                    conv_decl::Msg::Copy(words) => ConvAction::Copy(words),
                    conv_decl::Msg::ViewStale => ConvAction::Nothing,
                };
                assert(m@.app =~= before.app.showing(m@.app.screen));
                let (_, fx) = m.app.act_on_conv(i, Handled::Consumed, action, time);
                (Cmd::Nothing, fx)
            },
            _ => (Cmd::Nothing, none()),
        }
    }

    /// What a message comes to: the model after, what the host is asked, and what is to be done.
    pub fn update(m: &mut Model, msg: Msg, font: &Atlas, now: i64, utc_offset: i32) -> (r: (
        Cmd,
        Vec<Do>,
    ))
        requires
            now + utc_offset <= i64::MAX,
        ensures
            (final(m)@, r.0, app::do_views(r.1@)) == updated(
                old(m)@,
                msg@,
                font.glyphs@,
                pages::clock(now as int, utc_offset as int),
            ),
    {
        match msg {
            Msg::Touched => (Cmd::Nothing, none()),
            Msg::Exit => (Cmd::Exit, none()),
            Msg::Chats(x) => Tg::update_chats(m, x),
            Msg::Menu(x) => Tg::update_menu(m, x),
            Msg::Login(x) => Tg::update_login(m, x),
            Msg::Conv(x) => Tg::update_conv(m, x, font, hhmm(now, utc_offset)),
            Msg::Viewer(viewer_decl::Msg::Back) => {
                let ghost before = m@;
                m.app.viewer_back();
                assert(m@ =~= updated(
                    before,
                    MsgView::Viewer(viewer_decl::Msg::Back),
                    font.glyphs@,
                    pages::clock(now as int, utc_offset as int),
                ).0);
                (Cmd::Nothing, none())
            },
        }
    }

    /// Describe the screen in front.
    pub fn view(m: &Model, screen_w: i32, metrics: &Metrics, words: Words) -> (r: Scene)
        requires
            !m@.on_menu && m@.app.screen is Login ==> login_decl::padded(*metrics),
        ensures
            shown(r, m@, screen_w as int, *metrics, words),
    {
        if m.on_menu {
            return Scene::Menu(
                menu_decl::view(m.menu_selected, m.debug_log, words, m.app.lang, metrics),
            );
        }
        match &m.app.screen {
            Screen::Chats(list) => Scene::Chats(
                chats_decl::view(
                    chats_decl::rows(&m.app.store),
                    m.app.store.dialogs_loading,
                    m.app.store.status.as_str(),
                    list.state.selected,
                    metrics,
                ),
            ),
            Screen::Login => {
                let state = login_decl::State::of(&m.app.login);
                Scene::Login(login_decl::view(&state, screen_w, metrics, words, m.app.lang))
            },
            Screen::Conversation(c) => {
                if c.chat < m.app.store.chats.len() {
                    assert(m@.app.store.chats[c.chat as int] == m.app.store.chats@[c.chat as int]@);
                    let chat = &m.app.store.chats[c.chat];
                    Scene::Conversation(conv_decl::view(c, chat, words, m.app.lang))
                } else {
                    let labels = conv_decl::softkeys(
                        c.composer.is_empty(),
                        words,
                        m.app.lang,
                    ).labels();
                    Scene::Conversation(
                        conv_decl::Scene { title: String::new(), detail: None, labels },
                    )
                }
            },
            Screen::Viewer(_) => Scene::Viewer(viewer_decl::view(words, m.app.lang)),
        }
    }
}

// ---- what holds -----------------------------------------------------------------------------------

/// The red key leaves from every screen, whatever is half typed, and changes nothing on the way.
pub proof fn the_red_key_leaves_from_every_screen(
    m: ModelView,
    slot: Option<Slot>,
    words: Words,
    glyphs: Seq<char>,
    time: Seq<char>,
)
    ensures
        meaning(m, Key::End, slot, words) == Some(Msg::Exit),
        updated(m, MsgView::Exit, glyphs, time) == (m, Cmd::Exit, Seq::<DoView>::empty()),
{
}

/// Only a request to leave closes the application.
pub proof fn only_a_request_to_leave_leaves(
    m: ModelView,
    msg: MsgView,
    glyphs: Seq<char>,
    time: Seq<char>,
)
    ensures
        (updated(m, msg, glyphs, time).1 == Cmd::Exit) == (msg is Exit || msg
            == MsgView::Chats(chats_decl::Msg::Quit) || msg
            == MsgView::Login(login_decl::Msg::Quit)),
{
}

/// Opening the menu puts its cursor on the first entry, and leaving it again changes nothing else and
/// asks for nothing.
pub proof fn leaving_the_menu_changes_nothing(m: ModelView, glyphs: Seq<char>, time: Seq<char>)
    requires
        !m.on_menu,
    ensures
        ({
            let (n, c, fx) = updated(m, MsgView::Chats(chats_decl::Msg::Options), glyphs, time);
            let (o, d, gx) = updated(n, MsgView::Menu(menu_decl::Msg::Back), glyphs, time);
            &&& n.on_menu
            &&& n.app == m.app
            &&& o == (ModelView { menu_selected: 0, ..m })
            &&& fx.len() == 0
            &&& gx.len() == 0
        }),
{
    let n = ModelView { on_menu: true, menu_selected: 0, ..m };
    assert((ModelView { on_menu: false, ..n }) =~= (ModelView { menu_selected: 0, ..m }));
}

/// The log entry flips the switch, has the log follow it, and leaves the menu open; chosen twice, both
/// are as they were.
pub proof fn the_log_entry_toggles(m: ModelView, glyphs: Seq<char>, time: Seq<char>)
    requires
        m.menu_selected < menu_decl::all_entries().len(),
        menu_decl::all_entries()[m.menu_selected as int] == menu_decl::Action::DebugLog,
    ensures
        ({
            let (n, c, fx) = updated(m, MsgView::Menu(menu_decl::Msg::Run), glyphs, time);
            let (o, d, gx) = updated(n, MsgView::Menu(menu_decl::Msg::Run), glyphs, time);
            &&& n == (ModelView { debug_log: !m.debug_log, ..m })
            &&& o == m
            &&& fx == seq![DoView::Log(n.debug_log)]
            &&& gx == seq![DoView::Log(m.debug_log)]
        }),
{
    let n = ModelView { debug_log: !m.debug_log, ..m };
    assert((ModelView { debug_log: !n.debug_log, ..n }) =~= m);
}

/// Whatever row a list reports, and whatever is in front, the cursor lands on a chat, where there is
/// one.
pub proof fn the_cursor_stays_in_the_list(
    m: ModelView,
    i: usize,
    glyphs: Seq<char>,
    time: Seq<char>,
)
    requires
        m.app.store.chats.len() > 0,
        m.app.store.chats.len() <= usize::MAX,
    ensures
        ({
            let (n, c, fx) = updated(m, MsgView::Chats(chats_decl::Msg::Select(i)), glyphs, time);
            &&& n.chats_selected() < m.app.store.chats.len()
            &&& i < m.app.store.chats.len() ==> n.chats_selected() == i
        }),
{
}

/// A row that was reported is the one that opens, whatever is in front.
pub proof fn what_was_reported_is_opened(
    m: ModelView,
    i: usize,
    glyphs: Seq<char>,
    time: Seq<char>,
)
    requires
        i < m.app.store.chats.len(),
        m.app.store.chats.len() <= usize::MAX,
    ensures
        ({
            let (n, c, fx) = updated(m, MsgView::Chats(chats_decl::Msg::Select(i)), glyphs, time);
            let (o, d, gx) = updated(n, MsgView::Chats(chats_decl::Msg::Open), glyphs, time);
            &&& fx.len() == 0
            &&& gx == seq![DoView::ReadTail(i)]
            &&& o == n
        }),
{
    let n = updated(m, MsgView::Chats(chats_decl::Msg::Select(i)), glyphs, time).0;
    assert((ModelView { last_selected: i, ..n }) =~= n);
}

/// Nothing is opened off an empty list.
pub proof fn an_empty_list_opens_nothing(m: ModelView, glyphs: Seq<char>, time: Seq<char>)
    requires
        m.app.store.chats.len() == 0,
    ensures
        updated(m, MsgView::Chats(chats_decl::Msg::Open), glyphs, time) == (
            m,
            Cmd::Nothing,
            Seq::<DoView>::empty(),
        ),
{
}

/// Showing a password and hiding it again leaves the screen as it was.
pub proof fn the_mask_flips_back(s: login::ScreenView)
    ensures
        login::mask_flipped(login::mask_flipped(s)) == s,
{
}

/// What is drawn on the bar is what the bar answers: a slot has a label where it has a message, and
/// only there.
pub proof fn a_label_is_a_key(m: ModelView, words: Words, slot: Slot)
    ensures
        (bar(m, words).answer(Some(slot)) is Some) == (match slot {
            Slot::Options => ui::labels_of(bar(m, words))[0] is Some,
            Slot::Action => ui::labels_of(bar(m, words))[1] is Some,
            Slot::Back => ui::labels_of(bar(m, words))[2] is Some,
        }),
{
}

} // verus!
