//! The login screens: phone, code and password.
//!
//! The protocol's own login machine says what happens next and the toolkit's fields do the typing;
//! this decides which screen that puts up and what the application has to do.

use crate::model::copy_bytes;
use crate::text;
use crate::text::push_u64;
use crate::ui;
use crate::ui::{Edit, Field, FieldView, Handled, Key, Softkey};
use vstd::prelude::*;
use vstd::string::*;
use vstd::utf8;

verus! {

/// Which login screen is up.
#[derive(Debug)]
pub enum Screen {
    /// The user types a phone number, digits only: the `+` in front is drawn, not typed.
    Phone { field: Field, error: Option<String> },
    /// The user types the code the server sent.
    Code { field: Field, length: Option<i32>, error: Option<String> },
    /// The user types their two-factor password.
    Password { field: Field, hint: String, error: Option<String> },
    /// Waiting for the network or the worker.
    Waiting(&'static str),
}

/// What a key on a login screen asks the application to do.
#[derive(Debug, PartialEq, Eq)]
pub enum LoginAction {
    SendCode(String),
    SubmitCode(String),
    SubmitPassword(Vec<u8>),
    Resend,
    Back,
    Nothing,
}

/// Why the server refused a step.
#[derive(Debug, PartialEq, Eq)]
pub enum AuthError {
    PhoneNumberInvalid,
    PhoneCodeInvalid,
    PhoneCodeExpired,
    PasswordInvalid,
    /// Too many attempts; how many seconds to wait.
    FloodWait(u32),
    SignUpRequired,
    ApiIdInvalid,
    Other(String),
}

/// What the protocol's login machine asks for.
#[derive(Debug, PartialEq, Eq)]
pub enum Action {
    Call { body: Vec<u8>, tag: u32 },
    Kdf { password: Vec<u8>, salt1: Vec<u8>, salt2: Vec<u8> },
    ModPow { base: Vec<u8>, exp: Vec<u8>, modulus: Vec<u8> },
    /// A code is on its way; how many digits it has, where the server said.
    CodeSent { length: Option<i32> },
    NeedPassword { hint: String },
    /// The account lives on another data centre.
    Migrate(u8),
    Authorized,
    Failed(AuthError),
}

/// What the caller has to do about a step of the login.
#[derive(Debug, PartialEq, Eq)]
pub enum Progress {
    Call { body: Vec<u8>, tag: u32 },
    Kdf { password: Vec<u8>, salt1: Vec<u8>, salt2: Vec<u8> },
    ModPow { base: Vec<u8>, exp: Vec<u8>, modulus: Vec<u8> },
    Migrate(u8),
    Authorized,
    Error(AuthError),
    Nothing,
}

/// The login screens.
#[derive(Debug)]
pub struct Login {
    pub screen: Screen,
    /// The number this login is for, so that a migration can restart with it.
    pub phone: String,
    /// The application's id, zero where the build has none.
    pub api_id: i32,
    pub api_hash_empty: bool,
    /// Whether a code has been sent.
    pub code_sent: bool,
    /// Whether the account needs a password.
    pub password_needed: bool,
    /// Whether the login is over.
    pub authorized: bool,
    /// What the connection last said of itself.
    pub status: &'static str,
    /// Whether the connection is ready.
    pub connected: bool,
}

/// The values of a [`Screen`].
pub enum ScreenView {
    Phone { field: FieldView, error: Option<Seq<char>> },
    Code { field: FieldView, length: Option<i32>, error: Option<Seq<char>> },
    Password { field: FieldView, hint: Seq<char>, error: Option<Seq<char>> },
    Waiting(&'static str),
}

impl View for Screen {
    type V = ScreenView;

    open spec fn view(&self) -> ScreenView {
        match *self {
            Screen::Phone { field, error } => ScreenView::Phone {
                field: field@,
                error: ui::words_opt(error),
            },
            Screen::Code { field, length, error } => ScreenView::Code {
                field: field@,
                length,
                error: ui::words_opt(error),
            },
            Screen::Password { field, hint, error } => ScreenView::Password {
                field: field@,
                hint: hint@,
                error: ui::words_opt(error),
            },
            Screen::Waiting(words) => ScreenView::Waiting(words),
        }
    }
}

/// The values of a [`Login`].
#[verifier::ext_equal]
pub struct LoginView {
    pub screen: ScreenView,
    pub phone: Seq<char>,
    pub api_id: i32,
    pub api_hash_empty: bool,
    pub code_sent: bool,
    pub password_needed: bool,
    pub authorized: bool,
    pub status: &'static str,
    pub connected: bool,
}

impl View for Login {
    type V = LoginView;

    open spec fn view(&self) -> LoginView {
        LoginView {
            screen: self.screen@,
            phone: self.phone@,
            api_id: self.api_id,
            api_hash_empty: self.api_hash_empty,
            code_sent: self.code_sent,
            password_needed: self.password_needed,
            authorized: self.authorized,
            status: self.status,
            connected: self.connected,
        }
    }
}

/// The values of a [`LoginAction`].
pub enum LoginActionView {
    SendCode(Seq<char>),
    SubmitCode(Seq<char>),
    SubmitPassword(Seq<u8>),
    Resend,
    Back,
    Nothing,
}

impl View for LoginAction {
    type V = LoginActionView;

    open spec fn view(&self) -> LoginActionView {
        match *self {
            LoginAction::SendCode(n) => LoginActionView::SendCode(n@),
            LoginAction::SubmitCode(c) => LoginActionView::SubmitCode(c@),
            LoginAction::SubmitPassword(p) => LoginActionView::SubmitPassword(p@),
            LoginAction::Resend => LoginActionView::Resend,
            LoginAction::Back => LoginActionView::Back,
            LoginAction::Nothing => LoginActionView::Nothing,
        }
    }
}

/// A field with nothing typed into it.
pub open spec fn fresh(limit: usize, masked: bool) -> FieldView {
    FieldView { text: seq![], cursor: 0, masked, limit }
}

/// The phone screen with nothing typed and nothing to complain about.
pub open spec fn at_phone() -> ScreenView {
    ScreenView::Phone { field: fresh(16, false), error: None }
}

/// A login that has not begun.
pub open spec fn new_login(screen: ScreenView, api_id: i32, api_hash_empty: bool) -> LoginView {
    LoginView {
        screen,
        phone: seq![],
        api_id,
        api_hash_empty,
        code_sent: false,
        password_needed: false,
        authorized: false,
        status: "",
        connected: false,
    }
}

fn phone_screen() -> (r: Screen)
    ensures
        r@ == at_phone(),
{
    Screen::Phone { field: Field::with_limit(16), error: None }
}

/// What an error says on a screen.
pub open spec fn error_words(e: AuthError) -> Seq<char> {
    match e {
        AuthError::PhoneNumberInvalid => "Número não reconhecido pelo Telegram"@,
        AuthError::PhoneCodeInvalid => "Código incorreto. Verifique e tente de novo"@,
        AuthError::PhoneCodeExpired => "O código expirou. Solicite um novo e tente de novo"@,
        AuthError::PasswordInvalid => "Senha incorreta"@,
        AuthError::FloodWait(n) => "Muitas tentativas. Aguarde "@ + text::decimal(n as nat)
            + " segundos"@,
        AuthError::SignUpRequired => "Este número não tem conta. Este cliente não pode criar uma"@,
        AuthError::ApiIdInvalid => "Erro de configuração (api_id inválido)"@,
        AuthError::Other(s) => s@,
    }
}

/// What an error says on a screen.
pub fn error_text(e: &AuthError) -> (r: String)
    ensures
        r@ == error_words(*e),
{
    match e {
        AuthError::PhoneNumberInvalid => "Número não reconhecido pelo Telegram".to_owned(),
        AuthError::PhoneCodeInvalid => "Código incorreto. Verifique e tente de novo".to_owned(),
        AuthError::PhoneCodeExpired => "O código expirou. Solicite um novo e tente de novo".to_owned(),
        AuthError::PasswordInvalid => "Senha incorreta".to_owned(),
        AuthError::FloodWait(n) => {
            let mut s = "Muitas tentativas. Aguarde ".to_owned();
            push_u64(&mut s, *n as u64);
            s.append(" segundos");
            s
        },
        AuthError::SignUpRequired =>
            "Este número não tem conta. Este cliente não pode criar uma".to_owned(),
        AuthError::ApiIdInvalid => "Erro de configuração (api_id inválido)".to_owned(),
        AuthError::Other(s) => s.clone(),
    }
}

/// What the caller does about what the machine asked for. The screens take the rest.
pub open spec fn relayed(act: Action) -> Progress {
    match act {
        Action::Call { body, tag } => Progress::Call { body, tag },
        Action::Kdf { password, salt1, salt2 } => Progress::Kdf { password, salt1, salt2 },
        Action::ModPow { base, exp, modulus } => Progress::ModPow { base, exp, modulus },
        Action::CodeSent { .. } => Progress::Nothing,
        Action::NeedPassword { .. } => Progress::Nothing,
        Action::Migrate(dc) => Progress::Migrate(dc),
        Action::Authorized => Progress::Authorized,
        Action::Failed(e) => Progress::Error(e),
    }
}

/// Whether a login is over once the machine has asked for something.
pub open spec fn over(l: LoginView, act: Action) -> bool {
    l.authorized || act is Authorized
}

fn progress(act: Action) -> (r: Progress)
    ensures
        r == relayed(act),
{
    match act {
        Action::Call { body, tag } => Progress::Call { body, tag },
        Action::Kdf { password, salt1, salt2 } => Progress::Kdf { password, salt1, salt2 },
        Action::ModPow { base, exp, modulus } => Progress::ModPow { base, exp, modulus },
        Action::CodeSent { .. } => Progress::Nothing,
        Action::NeedPassword { .. } => Progress::Nothing,
        Action::Migrate(dc) => Progress::Migrate(dc),
        Action::Authorized => Progress::Authorized,
        Action::Failed(e) => Progress::Error(e),
    }
}

/// A screen with an error on it: the one that is up, where it has a place for one, and otherwise an
/// empty phone screen.
pub open spec fn with_error(s: ScreenView, words: Seq<char>) -> ScreenView {
    match s {
        ScreenView::Phone { field, .. } => ScreenView::Phone { field, error: Some(words) },
        ScreenView::Code { field, length, .. } => ScreenView::Code {
            field,
            length,
            error: Some(words),
        },
        ScreenView::Password { field, hint, .. } => ScreenView::Password {
            field,
            hint,
            error: Some(words),
        },
        ScreenView::Waiting(_) => ScreenView::Phone {
            field: fresh(16, false),
            error: Some(words),
        },
    }
}

fn complaining(was: Screen, words: String) -> (r: Screen)
    ensures
        r@ == with_error(was@, words@),
{
    match was {
        Screen::Phone { field, .. } => Screen::Phone { field, error: Some(words) },
        Screen::Code { field, length, .. } => Screen::Code { field, length, error: Some(words) },
        Screen::Password { field, hint, .. } => Screen::Password {
            field,
            hint,
            error: Some(words),
        },
        Screen::Waiting(_) => Screen::Phone { field: Field::with_limit(16), error: Some(words) },
    }
}

/// Whether a key is swallowed before the field sees it: a character that is not a digit, where only
/// digits go.
pub open spec fn swallowed(s: ScreenView, key: Key) -> bool {
    (s is Phone || s is Code) && (key matches Key::Char(c) && !('0' <= c <= '9'))
}

/// Whether a key is one that confirms.
pub open spec fn confirms(key: Key) -> bool {
    key == Key::Softkey(Softkey::Middle) || key == Key::Enter || key == Key::Select || key
        == Key::Call
}

fn is_confirm(key: Key) -> (r: bool)
    ensures
        r == confirms(key),
{
    match key {
        Key::Softkey(Softkey::Middle) => true,
        Key::Enter => true,
        Key::Select => true,
        Key::Call => true,
        _ => false,
    }
}

/// A screen whose field is another one.
pub open spec fn with_field(s: ScreenView, f: FieldView) -> ScreenView {
    match s {
        ScreenView::Phone { error, .. } => ScreenView::Phone { field: f, error },
        ScreenView::Code { length, error, .. } => ScreenView::Code { field: f, length, error },
        ScreenView::Password { hint, error, .. } => ScreenView::Password { field: f, hint, error },
        ScreenView::Waiting(w) => ScreenView::Waiting(w),
    }
}

fn holding(was: Screen, field: Field) -> (r: Screen)
    ensures
        r@ == with_field(was@, field@),
{
    match was {
        Screen::Phone { error, .. } => Screen::Phone { field, error },
        Screen::Code { length, error, .. } => Screen::Code { field, length, error },
        Screen::Password { hint, error, .. } => Screen::Password { field, hint, error },
        Screen::Waiting(w) => Screen::Waiting(w),
    }
}

/// A screen whose password is shown where it was hidden, and hidden where it was shown.
pub open spec fn mask_flipped(s: ScreenView) -> ScreenView {
    match s {
        ScreenView::Password { field, hint, error } => ScreenView::Password {
            field: FieldView { masked: !field.masked, ..field },
            hint,
            error,
        },
        other => other,
    }
}

/// What confirming on a screen asks for: the number with its `+`, the code, or the password's bytes.
pub open spec fn submission(s: ScreenView) -> LoginActionView {
    match s {
        ScreenView::Phone { field, .. } => LoginActionView::SendCode("+"@ + field.text),
        ScreenView::Code { field, .. } => LoginActionView::SubmitCode(field.text),
        ScreenView::Password { field, .. } => LoginActionView::SubmitPassword(
            utf8::encode_utf8(field.text),
        ),
        ScreenView::Waiting(_) => LoginActionView::Nothing,
    }
}

/// How a login goes on from what the machine asked for.
pub open spec fn applied(l: LoginView, act: Action) -> (LoginView, Progress) {
    match act {
        Action::NeedPassword { hint } => (
            LoginView {
                screen: ScreenView::Password {
                    field: fresh(128, true),
                    hint: hint@,
                    error: None,
                },
                password_needed: true,
                ..l
            },
            Progress::Nothing,
        ),
        Action::CodeSent { length } => (
            LoginView {
                screen: ScreenView::Code { field: fresh(8, false), length, error: None },
                code_sent: true,
                ..l
            },
            Progress::Nothing,
        ),
        Action::Failed(e) => (
            LoginView { screen: with_error(l.screen, error_words(e)), ..l },
            Progress::Error(e),
        ),
        other => (LoginView { authorized: over(l, other), ..l }, relayed(other)),
    }
}

/// What a key does on a screen.
pub open spec fn pressed(s: ScreenView, key: Key, edit: Option<Edit>) -> (
    ScreenView,
    Handled,
    LoginActionView,
) {
    let right = key == Key::Softkey(Softkey::Right);
    if s is Waiting {
        if right {
            (at_phone(), Handled::Consumed, LoginActionView::Nothing)
        } else {
            (s, Handled::Ignored, LoginActionView::Nothing)
        }
    } else if swallowed(s, key) {
        (s, Handled::Consumed, LoginActionView::Nothing)
    } else {
        match edit {
            None => (s, Handled::Ignored, LoginActionView::Nothing),
            Some(e) => {
                let typed = with_field(s, e.field@);
                if e.handled == Handled::Consumed {
                    (typed, Handled::Consumed, LoginActionView::Nothing)
                } else if confirms(key) {
                    (typed, Handled::Consumed, submission(typed))
                } else if right && s is Phone {
                    (typed, Handled::Consumed, LoginActionView::Back)
                } else if right && s is Code {
                    (at_phone(), Handled::Consumed, LoginActionView::Nothing)
                } else {
                    (typed, Handled::Ignored, LoginActionView::Nothing)
                }
            },
        }
    }
}

impl Login {
    /// A login for an application with these credentials.
    pub fn new(api_id: i32, api_hash: &str) -> (r: Login)
        ensures
            r@ == new_login(at_phone(), api_id, api_hash@.len() == 0),
    {
        let r = Login {
            screen: phone_screen(),
            phone: String::new(),
            api_id,
            api_hash_empty: api_hash.is_empty(),
            code_sent: false,
            password_needed: false,
            authorized: false,
            status: "",
            connected: false,
        };
        assert(r@ =~= new_login(at_phone(), api_id, api_hash@.len() == 0));
        r
    }

    /// A login that shows a given screen, for a preview.
    pub fn for_preview(screen: Screen) -> (r: Login)
        ensures
            r@ == new_login(screen@, 0, true),
    {
        let r = Login {
            screen,
            phone: String::new(),
            api_id: 0,
            api_hash_empty: true,
            code_sent: false,
            password_needed: false,
            authorized: false,
            status: "",
            connected: false,
        };
        assert(r@ =~= new_login(screen@, 0, true));
        r
    }

    /// Whether this build can log in at all, asked before a number is typed rather than after.
    pub fn credentials_missing(&self) -> (r: bool)
        ensures
            r == (self.api_id == 0 || self.api_hash_empty),
    {
        self.api_id == 0 || self.api_hash_empty
    }

    /// The number this login is for.
    pub fn phone(&self) -> (r: &str)
        ensures
            r@ == self.phone@,
    {
        self.phone.as_str()
    }

    /// Whether the login is over.
    pub fn is_authorized(&self) -> (r: bool)
        ensures
            r == self.authorized,
    {
        self.authorized
    }

    /// Put the phone screen up, empty.
    pub fn show_phone(&mut self)
        ensures
            final(self)@ == (LoginView { screen: at_phone(), ..old(self)@ }),
    {
        self.screen = phone_screen();
    }

    /// Hand on what the machine asked for, and keep in mind whether that was the end of it.
    fn relay(&mut self, act: Action) -> (r: Progress)
        ensures
            r == relayed(act),
            final(self)@ == (LoginView { authorized: over(old(self)@, act), ..old(self)@ }),
    {
        if let Action::Authorized = &act {
            self.authorized = true;
        }
        progress(act)
    }

    /// A code is being asked for; `act` is what the machine answered.
    pub fn ask_send_code(&mut self, phone: &str, act: Action) -> (r: Progress)
        ensures
            r == relayed(act),
            final(self)@ == (LoginView {
                screen: ScreenView::Waiting("sending the code"),
                phone: phone@,
                authorized: over(old(self)@, act),
                ..old(self)@
            }),
    {
        self.screen = Screen::Waiting("sending the code");
        self.phone = phone.to_owned();
        self.relay(act)
    }

    /// Another code is being asked for.
    pub fn ask_resend(&mut self, act: Action) -> (r: Progress)
        ensures
            r == relayed(act),
            final(self)@ == (LoginView {
                screen: ScreenView::Waiting("resending the code"),
                authorized: over(old(self)@, act),
                ..old(self)@
            }),
    {
        self.screen = Screen::Waiting("resending the code");
        self.relay(act)
    }

    /// The code is being submitted.
    pub fn submit_code(&mut self, act: Action) -> (r: Progress)
        ensures
            r == relayed(act),
            final(self)@ == (LoginView {
                screen: ScreenView::Waiting("signing in"),
                authorized: over(old(self)@, act),
                ..old(self)@
            }),
    {
        self.screen = Screen::Waiting("signing in");
        self.relay(act)
    }

    /// The password is being submitted.
    pub fn submit_password(&mut self, act: Action) -> (r: Progress)
        ensures
            r == relayed(act),
            final(self)@ == (LoginView {
                screen: ScreenView::Waiting("checking the password"),
                authorized: over(old(self)@, act),
                ..old(self)@
            }),
    {
        self.screen = Screen::Waiting("checking the password");
        self.relay(act)
    }

    /// The machine read a reply.
    pub fn on_reply(&mut self, act: Action) -> (r: Progress)
        ensures
            (final(self)@, r) == applied(old(self)@, act),
    {
        self.apply(act)
    }

    /// The machine read an error.
    pub fn on_error(&mut self, act: Action) -> (r: Progress)
        ensures
            (final(self)@, r) == applied(old(self)@, act),
    {
        self.apply(act)
    }

    /// The machine got the derived key back. No screen changes.
    pub fn on_kdf(&mut self, act: Action) -> (r: Progress)
        ensures
            r == relayed(act),
            final(self)@ == (LoginView { authorized: over(old(self)@, act), ..old(self)@ }),
    {
        self.relay(act)
    }

    /// The machine got an exponentiation back. No screen changes.
    pub fn on_modpow(&mut self, act: Action) -> (r: Progress)
        ensures
            r == relayed(act),
            final(self)@ == (LoginView { authorized: over(old(self)@, act), ..old(self)@ }),
    {
        self.relay(act)
    }

    /// Carry out what the machine asked for, putting another screen up where it takes one.
    pub fn apply(&mut self, act: Action) -> (r: Progress)
        ensures
            (final(self)@, r) == applied(old(self)@, act),
    {
        match act {
            Action::NeedPassword { hint } => {
                self.password_needed = true;
                let mut field = Field::with_limit(128);
                field.masked = true;
                self.screen = Screen::Password { field, hint, error: None };
                Progress::Nothing
            },
            Action::CodeSent { length } => {
                self.code_sent = true;
                self.screen = Screen::Code { field: Field::with_limit(8), length, error: None };
                Progress::Nothing
            },
            Action::Failed(e) => {
                let words = error_text(&e);
                let mut was = Screen::Waiting("");
                std::mem::swap(&mut was, &mut self.screen);
                self.screen = complaining(was, words);
                Progress::Error(e)
            },
            other => self.relay(other),
        }
    }

    /// Whether the toolkit's field has to be asked what it makes of a key.
    pub fn asks_field(&self, key: Key) -> (r: bool)
        ensures
            r == (!(self@.screen is Waiting) && !swallowed(self@.screen, key)),
    {
        match &self.screen {
            Screen::Waiting(_) => false,
            Screen::Password { .. } => true,
            _ => match key {
                Key::Char(c) => '0' <= c && c <= '9',
                _ => true,
            },
        }
    }

    /// Whether the screen only waits.
    pub fn is_waiting(&self) -> (r: bool)
        ensures
            r == self@.screen is Waiting,
    {
        match &self.screen {
            Screen::Waiting(_) => true,
            _ => false,
        }
    }

    /// The field of the screen that is up.
    pub fn field(&self) -> (r: Option<&Field>)
        ensures
            (match self.screen {
                Screen::Phone { field, .. } => r == Some(&field),
                Screen::Code { field, .. } => r == Some(&field),
                Screen::Password { field, .. } => r == Some(&field),
                Screen::Waiting(_) => r is None,
            }),
    {
        match &self.screen {
            Screen::Phone { field, .. } => Some(field),
            Screen::Code { field, .. } => Some(field),
            Screen::Password { field, .. } => Some(field),
            Screen::Waiting(_) => None,
        }
    }

    /// Put a field in place of the one of the screen that is up.
    pub fn put_field(&mut self, field: Field)
        ensures
            final(self)@ == (LoginView {
                screen: with_field(old(self)@.screen, field@),
                ..old(self)@
            }),
    {
        let mut was = Screen::Waiting("");
        std::mem::swap(&mut was, &mut self.screen);
        self.screen = holding(was, field);
    }

    /// Show the password, or hide it again.
    pub fn toggle_mask(&mut self)
        ensures
            final(self)@ == (LoginView { screen: mask_flipped(old(self)@.screen), ..old(self)@ }),
    {
        if let Screen::Password { field, .. } = &mut self.screen {
            field.masked = !field.masked;
        }
    }

    /// What confirming on the screen that is up asks for.
    pub fn submission(&self) -> (r: LoginAction)
        ensures
            r@ == submission(self@.screen),
    {
        match &self.screen {
            Screen::Phone { field, .. } => {
                let mut n = "+".to_owned();
                n.append(field.text.as_str());
                LoginAction::SendCode(n)
            },
            Screen::Code { field, .. } => LoginAction::SubmitCode(field.text.clone()),
            Screen::Password { field, .. } => LoginAction::SubmitPassword(
                copy_bytes(field.text.as_str().as_bytes()),
            ),
            Screen::Waiting(_) => LoginAction::Nothing,
        }
    }

    /// What the connection says of itself.
    pub fn set_status(&mut self, status: &'static str)
        ensures
            final(self)@ == (LoginView { status, ..old(self)@ }),
    {
        self.status = status;
    }

    /// Complain on the screen that is up, or on an empty phone screen when that one only waits.
    pub fn set_error(&mut self, why: &str)
        ensures
            final(self)@ == (LoginView {
                screen: with_error(old(self)@.screen, why@),
                ..old(self)@
            }),
    {
        let words = why.to_owned();
        let mut was = Screen::Waiting("");
        std::mem::swap(&mut was, &mut self.screen);
        self.screen = complaining(was, words);
    }

    /// What a key does, given what the field made of it.
    ///
    /// `edit` is the answer of the toolkit's field, which is asked for any key that is not
    /// swallowed on a screen that has one. A waiting screen answers only the way out, which puts
    /// the phone screen up: the request in flight is not taken back, and its answer still lands.
    pub fn handle_key(&mut self, key: Key, edit: Option<Edit>) -> (r: (Handled, LoginAction))
        ensures
            final(self)@ == (LoginView {
                screen: pressed(old(self)@.screen, key, edit).0,
                ..old(self)@
            }),
            r.0 == pressed(old(self)@.screen, key, edit).1,
            r.1@ == pressed(old(self)@.screen, key, edit).2,
    {
        let mut was = Screen::Waiting("");
        std::mem::swap(&mut was, &mut self.screen);
        if let Screen::Waiting(w) = was {
            if key == Key::Softkey(Softkey::Right) {
                self.screen = phone_screen();
                return (Handled::Consumed, LoginAction::Nothing);
            }
            self.screen = Screen::Waiting(w);
            return (Handled::Ignored, LoginAction::Nothing);
        }
        let digits: bool = match &was {
            Screen::Phone { .. } => true,
            Screen::Code { .. } => true,
            _ => false,
        };
        if digits {
            if let Key::Char(c) = key {
                if !('0' <= c && c <= '9') {
                    self.screen = was;
                    return (Handled::Consumed, LoginAction::Nothing);
                }
            }
        }
        let e = match edit {
            Some(e) => e,
            None => {
                self.screen = was;
                return (Handled::Ignored, LoginAction::Nothing);
            },
        };
        let taken: bool = e.handled == Handled::Consumed;
        let now = holding(was, e.field);
        if taken {
            self.screen = now;
            return (Handled::Consumed, LoginAction::Nothing);
        }
        if is_confirm(key) {
            self.screen = now;
            return (Handled::Consumed, self.submission());
        }
        if key == Key::Softkey(Softkey::Right) {
            match now {
                Screen::Phone { field, error } => {
                    self.screen = Screen::Phone { field, error };
                    return (Handled::Consumed, LoginAction::Back);
                },
                Screen::Code { .. } => {
                    self.screen = phone_screen();
                    return (Handled::Consumed, LoginAction::Nothing);
                },
                other => {
                    self.screen = other;
                    return (Handled::Ignored, LoginAction::Nothing);
                },
            }
        }
        self.screen = now;
        (Handled::Ignored, LoginAction::Nothing)
    }
}

// ---- what holds -----------------------------------------------------------------------------------

/// Where digits go, nothing else does: another character changes nothing, whatever the field would
/// have made of it.
pub proof fn only_digits_are_typed(s: ScreenView, c: char, edit: Option<Edit>)
    requires
        s is Phone || s is Code,
        !('0' <= c <= '9'),
    ensures
        pressed(s, Key::Char(c), edit) == (s, Handled::Consumed, LoginActionView::Nothing),
{
}

/// Nothing that was typed leaves the screen before it is confirmed.
pub proof fn only_confirming_submits(s: ScreenView, key: Key, edit: Option<Edit>)
    requires
        !confirms(key),
    ensures
        pressed(s, key, edit).2 is Nothing || pressed(s, key, edit).2 is Back,
{
}

/// A number is sent with the `+` that is drawn in front of it.
pub proof fn a_number_is_sent_with_its_plus(s: ScreenView, key: Key, edit: Edit)
    requires
        s is Phone,
        confirms(key),
        edit.handled == Handled::Ignored,
    ensures
        pressed(s, key, Some(edit)).2 == LoginActionView::SendCode("+"@ + edit.field@.text),
{
}

/// An error shows on the screen it happened on, and what was typed there stays.
pub proof fn an_error_keeps_the_screen(s: ScreenView, words: Seq<char>)
    requires
        !(s is Waiting),
    ensures
        (match (s, with_error(s, words)) {
            (
                ScreenView::Phone { field, .. },
                ScreenView::Phone { field: f, error },
            ) => f == field && error == Some(words),
            (
                ScreenView::Code { field, length, .. },
                ScreenView::Code { field: f, length: n, error },
            ) => f == field && n == length && error == Some(words),
            (
                ScreenView::Password { field, hint, .. },
                ScreenView::Password { field: f, hint: h, error },
            ) => f == field && h == hint && error == Some(words),
            _ => false,
        }),
{
}

/// A screen that waits can always be left, and leads to an empty phone screen.
pub proof fn waiting_can_be_left(words: &'static str, edit: Option<Edit>)
    ensures
        pressed(ScreenView::Waiting(words), Key::Softkey(Softkey::Right), edit) == (
            at_phone(),
            Handled::Consumed,
            LoginActionView::Nothing,
        ),
{
}

/// A password is never shown by itself: its field comes up hidden.
pub proof fn a_password_comes_up_hidden(l: LoginView, hint: String)
    ensures
        ({
            let (n, p) = applied(l, Action::NeedPassword { hint });
            n.screen is Password && n.screen->Password_field.masked && n.password_needed
        }),
{
}

/// A login that is over stays over, whatever the machine asks for after.
pub proof fn a_login_stays_over(l: LoginView, act: Action)
    ensures
        applied(l, act).0.authorized == (l.authorized || act is Authorized),
{
}

/// Moving to another data centre keeps the number, so that the login can begin again there.
pub proof fn a_migration_keeps_the_number(l: LoginView, dc: u8)
    ensures
        applied(l, Action::Migrate(dc)) == (l, Progress::Migrate(dc)),
{
}

} // verus!
