//! The login screens, described rather than drawn.
//!
//! A description holds what is on screen and nothing of the machine that decides it. The block in
//! the middle is centred in the whole band; the hint and the status are pinned over it from below.

use crate::login;
use crate::login::{Login, LoginView, Screen, ScreenView};
use crate::strings;
use crate::strings::{
    code, code_field, conceal, digits_suffix, enter_sms_code, enter_the, next, no_api_id, password,
    phone_number, show, sign_in, title_sign_in, two_factor_password, Lang,
};
use crate::text;
use crate::text::itoa;
use crate::ui;
use crate::ui::{copy_words, halved, halved_wide, Edges, Key, Metrics, Slot, Softkey, Softkeys, Words};
use vstd::prelude::*;
use vstd::string::*;

verus! {

/// What the login screens ask the application to do. What was typed is not in here: the application
/// reads the field itself, which keeps a password out of anything that could be logged.
#[derive(Clone, Copy, Debug, PartialEq, Eq, Structural)]
pub enum Msg {
    /// Go on from this screen.
    Submit,
    /// Back to the phone number.
    BackToPhone,
    /// Show or hide the password.
    ToggleMask,
    /// Leave the application.
    Quit,
}

/// Which login screen, and what it needs besides the field.
#[derive(Debug, PartialEq, Eq)]
pub enum Which {
    Phone {
        /// Whether this build cannot log in at all.
        credentials_missing: bool,
    },
    /// The code; how many digits it has, where the server said.
    Code { length: Option<i32> },
    Password { hint: String, masked: bool },
    /// Waiting; the message is all there is.
    Waiting(String),
}

/// The values of a [`Which`].
pub enum WhichView {
    Phone { credentials_missing: bool },
    Code { length: Option<i32> },
    Password { hint: Seq<char>, masked: bool },
    Waiting(Seq<char>),
}

impl View for Which {
    type V = WhichView;

    open spec fn view(&self) -> WhichView {
        match *self {
            Which::Phone { credentials_missing } => WhichView::Phone { credentials_missing },
            Which::Code { length } => WhichView::Code { length },
            Which::Password { hint, masked } => WhichView::Password { hint: hint@, masked },
            Which::Waiting(s) => WhichView::Waiting(s@),
        }
    }
}

/// Everything the login screens draw.
#[derive(Debug, PartialEq, Eq)]
pub struct State {
    pub which: Which,
    /// What went wrong, under the field.
    pub error: Option<String>,
    /// What the connection says of itself, along the bottom.
    pub status: String,
    /// Whether the connection is ready. One that is not takes the middle label away, rather than
    /// offering what cannot work.
    pub connected: bool,
}

/// The values of a [`State`].
#[verifier::ext_equal]
pub struct StateView {
    pub which: WhichView,
    pub error: Option<Seq<char>>,
    pub status: Seq<char>,
    pub connected: bool,
}

impl View for State {
    type V = StateView;

    open spec fn view(&self) -> StateView {
        StateView {
            which: self.which@,
            error: ui::words_opt(self.error),
            status: self.status@,
            connected: self.connected,
        }
    }
}

/// What a login is described as. A waiting screen has its message in the middle, and no status
/// besides.
pub open spec fn description(l: LoginView) -> StateView {
    StateView {
        which: match l.screen {
            ScreenView::Phone { .. } => WhichView::Phone {
                credentials_missing: l.api_id == 0 || l.api_hash_empty,
            },
            ScreenView::Code { length, .. } => WhichView::Code { length },
            ScreenView::Password { field, hint, .. } => WhichView::Password {
                hint,
                masked: field.masked,
            },
            ScreenView::Waiting(msg) => WhichView::Waiting(msg@),
        },
        error: match l.screen {
            ScreenView::Phone { error, .. } => error,
            ScreenView::Code { error, .. } => error,
            ScreenView::Password { error, .. } => error,
            ScreenView::Waiting(_) => None,
        },
        status: if l.screen is Waiting {
            seq![]
        } else {
            l.status@
        },
        connected: l.connected,
    }
}

impl State {
    /// What a login is described as.
    pub fn of(login: &Login) -> (r: State)
        ensures
            r@ == description(login@),
    {
        let (which, error): (Which, Option<String>) = match &login.screen {
            Screen::Phone { error, .. } => (
                Which::Phone { credentials_missing: login.credentials_missing() },
                copy_words(error),
            ),
            Screen::Code { length, error, .. } => (
                Which::Code { length: *length },
                copy_words(error),
            ),
            Screen::Password { field, hint, error } => (
                Which::Password { hint: hint.clone(), masked: field.masked },
                copy_words(error),
            ),
            Screen::Waiting(msg) => (Which::Waiting((*msg).to_owned()), None),
        };
        let waiting: bool = match &login.screen {
            Screen::Waiting(_) => true,
            _ => false,
        };
        let status = if waiting {
            String::new()
        } else {
            login.status.to_owned()
        };
        let r = State { which, error, status, connected: login.connected };
        assert(r@ =~= description(login@));
        r
    }
}

/// The line under the field: how many digits to expect, or the server's hint.
pub open spec fn hint_words(w: WhichView, lang: Lang) -> Option<Seq<char>> {
    match w {
        WhichView::Code { length } => match length {
            Some(n) => Some(
                strings::wording(lang, "Enter the ", "Digite os ")@ + text::decimal(
                    n as u32 as nat,
                ) + strings::wording(lang, " digits", " dígitos")@,
            ),
            None => Some(
                strings::wording(
                    lang,
                    "Enter the code sent by SMS",
                    "Digite o código enviado por SMS",
                )@,
            ),
        },
        WhichView::Password { hint, .. } => if hint.len() > 0 {
            Some(hint)
        } else {
            None
        },
        _ => None,
    }
}

/// The line under the field.
pub fn hint(which: &Which, lang: Lang) -> (r: Option<String>)
    ensures
        ui::words_opt(r) == hint_words(which@, lang),
{
    match which {
        Which::Code { length } => match length {
            Some(n) => {
                let mut s = enter_the(lang).to_owned();
                let digits = itoa(*n as u32);
                s.append(digits.as_str());
                s.append(digits_suffix(lang));
                Some(s)
            },
            None => Some(enter_sms_code(lang).to_owned()),
        },
        Which::Password { hint, .. } => if !hint.as_str().is_empty() {
            Some(hint.clone())
        } else {
            None
        },
        _ => None,
    }
}

/// The bar. The middle label goes when the connection is not ready: there is no such thing as a
/// label that does nothing.
pub open spec fn bar(s: StateView, words: Words, lang: Lang) -> Softkeys<Msg> {
    let enter = if s.connected {
        Some((strings::wording(lang, "Sign in", "Entrar"), Msg::Submit))
    } else {
        None
    };
    match s.which {
        WhichView::Waiting(_) => Softkeys {
            options: None,
            action: None,
            back: Some((words.cancel, Msg::BackToPhone)),
        },
        WhichView::Phone { credentials_missing } => Softkeys {
            options: None,
            action: if credentials_missing || !s.connected {
                None
            } else {
                Some((strings::wording(lang, "Next", "Avançar"), Msg::Submit))
            },
            back: None,
        },
        WhichView::Code { .. } => Softkeys {
            options: Some((words.back, Msg::BackToPhone)),
            action: enter,
            back: None,
        },
        WhichView::Password { masked, .. } => Softkeys {
            options: Some(
                (
                    if masked {
                        strings::wording(lang, "Show", "Mostrar")
                    } else {
                        strings::wording(lang, "Hide", "Ocultar")
                    },
                    Msg::ToggleMask,
                ),
            ),
            action: enter,
            back: None,
        },
    }
}

/// The bar.
pub fn softkeys(state: &State, words: Words, lang: Lang) -> (r: Softkeys<Msg>)
    ensures
        r == bar(state@, words, lang),
{
    let k: Softkeys<Msg> = Softkeys::new();
    match &state.which {
        Which::Waiting(_) => k.back(words.cancel, Msg::BackToPhone),
        Which::Phone { credentials_missing } => {
            if *credentials_missing || !state.connected {
                k
            } else {
                k.action(next(lang), Msg::Submit)
            }
        },
        Which::Code { .. } => {
            let k = k.options(words.back, Msg::BackToPhone);
            if state.connected {
                k.action(sign_in(lang), Msg::Submit)
            } else {
                k
            }
        },
        Which::Password { masked, .. } => {
            // The label says what a press will do: it is a verb.
            let verb: &'static str = if *masked {
                show(lang)
            } else {
                conceal(lang)
            };
            let k = k.options(verb, Msg::ToggleMask);
            if state.connected {
                k.action(sign_in(lang), Msg::Submit)
            } else {
                k
            }
        },
    }
}

/// What a key means on these screens.
pub open spec fn meaning(
    s: StateView,
    key: Key,
    slot: Option<Slot>,
    words: Words,
    lang: Lang,
) -> Option<Msg> {
    if login::confirms(key) && !(s.which is Waiting) {
        Some(Msg::Submit)
    } else if key == Key::Softkey(Softkey::Right) && s.which is Phone {
        Some(Msg::Quit)
    } else {
        bar(s, words, lang).answer(slot)
    }
}

/// What a key means on these screens, before the field sees it.
///
/// Two keys say more than the bar does. Confirming goes on even where the label is gone, so that a
/// link that is down answers with an error rather than with silence; and on the phone screen the
/// right key leaves. `slot` is the slot of the bar the key presses.
pub fn on_key(state: &State, key: Key, slot: Option<Slot>, words: Words, lang: Lang) -> (r: Option<
    Msg,
>)
    ensures
        r == meaning(state@, key, slot, words, lang),
{
    let has_field: bool = match &state.which {
        Which::Waiting(_) => false,
        _ => true,
    };
    let on_phone: bool = match &state.which {
        Which::Phone { .. } => true,
        _ => false,
    };
    let confirm: bool = match key {
        Key::Call => true,
        Key::Select => true,
        Key::Enter => true,
        Key::Softkey(Softkey::Middle) => true,
        _ => false,
    };
    if confirm && has_field {
        return Some(Msg::Submit);
    }
    if key == Key::Softkey(Softkey::Right) && on_phone {
        return Some(Msg::Quit);
    }
    softkeys(state, words, lang).dispatch(slot)
}

/// The width of the field.
pub open spec fn field_w(screen_w: int) -> int {
    ui::half(screen_w) + 40
}

/// How far in from the left edge of its padded band the field starts, whatever stands beside it.
pub open spec fn field_left(screen_w: int, pad: int) -> int {
    ui::half(screen_w - pad * 2 - field_w(screen_w))
}

/// The width of the field.
pub fn field_width(screen_w: i32) -> (r: i32)
    ensures
        r == field_w(screen_w as int),
{
    halved(screen_w) + 40
}

/// Whether the space a theme asks for around what is pinned can be said in a number.
pub open spec fn padded(m: Metrics) -> bool {
    &&& i32::MIN <= m.pad * 2 <= i32::MAX
    &&& i32::MIN <= m.pad + m.softkey_h <= i32::MAX
}

/// How far in the field starts.
pub fn field_indent(screen_w: i32, m: &Metrics) -> (r: i32)
    requires
        i32::MIN <= m.pad * 2 <= i32::MAX,
    ensures
        r == field_left(screen_w as int, m.pad as int),
{
    let rest: i64 = screen_w as i64 - (m.pad * 2) as i64 - field_width(screen_w) as i64;
    halved_wide(rest) as i32
}

/// A line pinned to the bottom of the band by the space around it.
#[derive(Debug)]
pub struct Pinned {
    pub text: String,
    pub around: Edges,
}

/// A screen with a field.
#[derive(Debug)]
pub struct Form {
    pub title: &'static str,
    pub indent: i32,
    pub width: i32,
    pub prefix: Option<&'static str>,
    pub placeholder: &'static str,
    pub masked: bool,
    /// The eye beside a password, open where the password can be read.
    pub eye: Option<bool>,
    /// The line under the field.
    pub line: Option<String>,
    pub hint: Option<Pinned>,
    pub status: Option<Pinned>,
}

/// What is between the bars.
#[derive(Debug)]
pub enum Body {
    /// A message in the middle.
    Waiting(String),
    Form(Form),
}

/// A login screen as it is described to the toolkit. The bar keeps its place even with no label on
/// it, or everything centred would move.
#[derive(Debug)]
pub struct Described {
    pub detail: String,
    pub body: Body,
    pub labels: [Option<&'static str>; 3],
}

/// The values of a [`Form`].
#[verifier::ext_equal]
pub struct FormView {
    pub title: &'static str,
    pub indent: i32,
    pub width: i32,
    pub prefix: Option<&'static str>,
    pub placeholder: &'static str,
    pub masked: bool,
    pub eye: Option<bool>,
    pub line: Option<Seq<char>>,
    pub hint: Option<(Seq<char>, Edges)>,
    pub status: Option<(Seq<char>, Edges)>,
}

/// The values of a line that may not be there.
pub open spec fn pinned_opt(p: Option<Pinned>) -> Option<(Seq<char>, Edges)> {
    match p {
        Some(p) => Some((p.text@, p.around)),
        None => None,
    }
}

impl View for Form {
    type V = FormView;

    open spec fn view(&self) -> FormView {
        FormView {
            title: self.title,
            indent: self.indent,
            width: self.width,
            prefix: self.prefix,
            placeholder: self.placeholder,
            masked: self.masked,
            eye: self.eye,
            line: ui::words_opt(self.line),
            hint: pinned_opt(self.hint),
            status: pinned_opt(self.status),
        }
    }
}

/// What the title bar of a login screen says.
pub open spec fn detail_words(w: WhichView, lang: Lang) -> Seq<char> {
    match w {
        WhichView::Phone { .. } => strings::wording(lang, "sign in", "entrar")@,
        WhichView::Code { .. } => strings::wording(lang, "code", "código")@,
        WhichView::Password { .. } => strings::wording(lang, "password", "senha")@,
        WhichView::Waiting(msg) => msg,
    }
}

/// A screen with a field, as it is described.
pub open spec fn form_of(s: StateView, screen_w: int, m: Metrics, lang: Lang) -> FormView {
    FormView {
        title: match s.which {
            WhichView::Phone { .. } => strings::wording(lang, "Phone number", "Número de telefone"),
            WhichView::Code { .. } => strings::wording(lang, "Code", "Código"),
            _ => strings::wording(lang, "Two-factor password", "Senha de dois fatores"),
        },
        indent: field_left(screen_w, m.pad as int) as i32,
        width: field_w(screen_w) as i32,
        prefix: if s.which is Phone {
            Some("+")
        } else {
            None
        },
        placeholder: match s.which {
            WhichView::Phone { .. } => "11 999999999",
            WhichView::Code { .. } => strings::wording(lang, "code", "código"),
            _ => strings::wording(lang, "password", "senha"),
        },
        masked: s.which matches WhichView::Password { masked, .. } && masked,
        eye: match s.which {
            WhichView::Password { masked, .. } => Some(!masked),
            _ => None,
        },
        line: if s.which matches WhichView::Phone { credentials_missing } && credentials_missing {
            Some(
                strings::wording(
                    lang,
                    "no api_id: see apps/telegram/api.conf.example",
                    "sem api_id: veja apps/telegram/api.conf.example",
                )@,
            )
        } else {
            s.error
        },
        hint: match hint_words(s.which, lang) {
            Some(words) => Some(
                (
                    words,
                    Edges {
                        left: m.pad,
                        top: 0,
                        right: m.pad,
                        bottom: (m.pad + m.softkey_h) as i32,
                    },
                ),
            ),
            None => None,
        },
        status: if s.status.len() == 0 {
            None
        } else {
            Some(
                (
                    s.status,
                    Edges { left: 0, top: 0, right: (m.pad * 2) as i32, bottom: m.pad },
                ),
            )
        },
    }
}

/// Whether something between the bars is what a state is described as.
pub open spec fn body_is(
    b: Body,
    s: StateView,
    screen_w: int,
    m: Metrics,
    lang: Lang,
) -> bool {
    match s.which {
        WhichView::Waiting(msg) => b matches Body::Waiting(words) && words@ == msg,
        _ => b matches Body::Form(f) && f@ == form_of(s, screen_w, m, lang),
    }
}

/// Whether a description is that of a state.
pub open spec fn describes(
    r: Described,
    s: StateView,
    screen_w: int,
    m: Metrics,
    words: Words,
    lang: Lang,
) -> bool {
    &&& r.detail@ == detail_words(s.which, lang)
    &&& body_is(r.body, s, screen_w, m, lang)
    &&& r.labels@ == ui::labels_of(bar(s, words, lang))
}

/// Describe a login screen.
pub fn view(state: &State, screen_w: i32, m: &Metrics, words: Words, lang: Lang) -> (r: Described)
    requires
        padded(*m),
    ensures
        describes(r, state@, screen_w as int, *m, words, lang),
{
    let labels = softkeys(state, words, lang).labels();
    let detail = match &state.which {
        Which::Phone { .. } => title_sign_in(lang).to_owned(),
        Which::Code { .. } => code(lang).to_owned(),
        Which::Password { .. } => password(lang).to_owned(),
        Which::Waiting(msg) => msg.clone(),
    };
    let (title, prefix, placeholder, masked, eye, missing): (
        &'static str,
        Option<&'static str>,
        &'static str,
        bool,
        Option<bool>,
        bool,
    ) = match &state.which {
        Which::Waiting(msg) => {
            let body = Body::Waiting(msg.clone());
            return Described { detail, body, labels };
        },
        Which::Phone { credentials_missing } => (
            phone_number(lang),
            Some("+"),
            "11 999999999",
            false,
            None,
            *credentials_missing,
        ),
        Which::Code { .. } => (code_field(lang), None, code(lang), false, None, false),
        Which::Password { masked, .. } => (
            two_factor_password(lang),
            None,
            password(lang),
            *masked,
            Some(!*masked),
            false,
        ),
    };
    // Said in place of an error rather than beside one: nothing has gone wrong yet.
    let line = if missing {
        Some(no_api_id(lang).to_owned())
    } else {
        copy_words(&state.error)
    };
    let hint = match hint(&state.which, lang) {
        Some(text) => Some(
            Pinned {
                text,
                around: Edges {
                    left: m.pad,
                    top: 0,
                    right: m.pad,
                    bottom: m.pad + m.softkey_h,
                },
            },
        ),
        None => None,
    };
    let status = if state.status.as_str().is_empty() {
        None
    } else {
        Some(
            Pinned {
                text: state.status.clone(),
                around: Edges { left: 0, top: 0, right: m.pad * 2, bottom: m.pad },
            },
        )
    };
    let form = Form {
        title,
        indent: field_indent(screen_w, m),
        width: field_width(screen_w),
        prefix,
        placeholder,
        masked,
        eye,
        line,
        hint,
        status,
    };
    assert(form@ =~= form_of(state@, screen_w as int, *m, lang));
    Described { detail, body: Body::Form(form), labels }
}

/// Confirming goes on from every screen with a field, whether the connection is ready or not.
pub proof fn confirming_always_submits(
    s: StateView,
    key: Key,
    slot: Option<Slot>,
    words: Words,
    lang: Lang,
)
    requires
        login::confirms(key),
        !(s.which is Waiting),
    ensures
        meaning(s, key, slot, words, lang) == Some(Msg::Submit),
{
}

/// A connection that is not ready takes the middle label off every screen.
pub proof fn an_unready_connection_offers_nothing(s: StateView, words: Words, lang: Lang)
    requires
        !s.connected,
    ensures
        bar(s, words, lang).action is None,
{
}

} // verus!
