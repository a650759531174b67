//! What the login screens are for: what is typed is what is submitted, what the machine asks for is
//! what is done, and what goes wrong is shown where it went wrong.

use crate::app;
use crate::app::{AppView, DoView};
use crate::content_laws;
use crate::driver::{Call, Effect, FxView, On, Queued, Request};
use crate::login;
use crate::login::{Action, AuthError, LoginActionView, LoginView, Progress, ScreenView};
use crate::text;
use crate::ui::{Edit, FieldView, Handled, Key, Softkey};
use vstd::prelude::*;
use vstd::utf8::encode_utf8;

verus! {

/// The field of a screen.
pub open spec fn field_of(s: ScreenView) -> Option<FieldView> {
    match s {
        ScreenView::Phone { field, .. } => Some(field),
        ScreenView::Code { field, .. } => Some(field),
        ScreenView::Password { field, .. } => Some(field),
        ScreenView::Waiting(_) => None,
    }
}

/// What a screen complains about.
pub open spec fn error_of(s: ScreenView) -> Option<Seq<char>> {
    match s {
        ScreenView::Phone { error, .. } => error,
        ScreenView::Code { error, .. } => error,
        ScreenView::Password { error, .. } => error,
        ScreenView::Waiting(_) => None,
    }
}

/// Whether a key is one that confirms: the middle softkey, enter, select or the call key.
pub open spec fn is_confirming(key: Key) -> bool {
    match key {
        Key::Softkey(k) => k == Softkey::Middle,
        Key::Enter => true,
        Key::Select => true,
        Key::Call => true,
        _ => false,
    }
}

/// Confirming on the code screen, with a key its field leaves alone, submits exactly the characters in
/// the field; on the password screen, exactly the bytes of the characters in the field; and on the
/// phone screen the characters in the field behind a plus. The screen keeps what was typed.
pub proof fn confirming_submits_what_was_typed(s: ScreenView, key: Key, edit: Edit)
    requires
        is_confirming(key),
        edit.handled != Handled::Consumed,
    ensures
        ({
            let (after, handled, action) = login::pressed(s, key, Some(edit));
            &&& s is Code ==> action == LoginActionView::SubmitCode(edit.field@.text) && after
                is Code
            &&& s is Password ==> action == LoginActionView::SubmitPassword(
                encode_utf8(edit.field@.text),
            ) && after is Password
            &&& s is Phone ==> {
                &&& action matches LoginActionView::SendCode(number)
                &&& number.len() == edit.field@.text.len() + 1
                &&& number[0] == '+'
                &&& number.subrange(1, number.len() as int) == edit.field@.text
                &&& after is Phone
            }
            &&& s is Waiting ==> action is Nothing && after == s && handled == Handled::Ignored
            &&& !(s is Waiting) ==> handled == Handled::Consumed && field_of(after) == Some(
                edit.field@,
            ) && error_of(after) == error_of(s)
        }),
{
    reveal_strlit("+");
    let number = "+"@ + edit.field@.text;
    assert(number.subrange(1, number.len() as int) =~= edit.field@.text);
}

/// What a screen submits is what its field holds: two screens that submit the same hold the same.
pub proof fn a_submission_is_what_the_field_holds(s: ScreenView)
    ensures
        s matches ScreenView::Code { field, .. } ==> login::submission(s)
            == LoginActionView::SubmitCode(field.text),
        s matches ScreenView::Password { field, .. } ==> login::submission(s)
            == LoginActionView::SubmitPassword(encode_utf8(field.text)),
        s matches ScreenView::Phone { field, .. } ==> {
            &&& login::submission(s) matches LoginActionView::SendCode(number)
            &&& number == seq!['+'] + field.text
        },
        s is Waiting ==> login::submission(s) is Nothing,
{
    reveal_strlit("+");
    assert("+"@ =~= seq!['+']);
}

/// What the field makes of a key is what the screen then holds. A key the field takes does nothing
/// else, and no key but a confirming one submits.
pub proof fn what_is_typed_stays_typed(s: ScreenView, key: Key, edit: Edit)
    requires
        !(s is Waiting),
        !(s is Phone || s is Code) || !(key is Char) || ('0' <= key->Char_0 <= '9'),
    ensures
        ({
            let (after, handled, action) = login::pressed(s, key, Some(edit));
            let leaves = key == Key::Softkey(Softkey::Right) && edit.handled != Handled::Consumed;
            &&& !(s is Code && leaves) ==> field_of(after) == Some(edit.field@) && error_of(after)
                == error_of(s)
            &&& s matches ScreenView::Code { length, .. } ==> !leaves ==> (after
                matches ScreenView::Code { length: n, .. } && n == length)
            &&& s matches ScreenView::Password { hint, .. } ==> (after
                matches ScreenView::Password { hint: h, .. } && h == hint)
            &&& s is Phone ==> after is Phone
            &&& s is Code && leaves ==> {
                &&& after is Phone
                &&& field_of(after) matches Some(f)
                &&& f.text.len() == 0
                &&& error_of(after) is None
                &&& action is Nothing
            }
            &&& edit.handled == Handled::Consumed ==> action is Nothing && handled
                == Handled::Consumed
            &&& s is Phone && leaves ==> action is Back
            &&& action is Back ==> s is Phone && leaves
            &&& !is_confirming(key) ==> action is Nothing || action is Back
        }),
{
}

/// A key on a login screen that submits hands exactly that to the login machine, and asks for nothing
/// else; leaving the phone screen closes the application.
pub proof fn what_is_submitted_reaches_the_machine(s: AppView, key: Key, edit: Edit)
    requires
        edit.handled != Handled::Consumed,
    ensures
        ({
            let (n, h, fx) = app::login_keyed(s, key, Some(edit));
            &&& is_confirming(key) && s.login.screen is Code ==> fx == seq![
                DoView::Machine(LoginActionView::SubmitCode(edit.field@.text)),
            ]
            &&& is_confirming(key) && s.login.screen is Password ==> fx == seq![
                DoView::Machine(LoginActionView::SubmitPassword(encode_utf8(edit.field@.text))),
            ]
            &&& is_confirming(key) && s.login.screen is Phone ==> {
                &&& fx.len() == 1
                &&& fx[0] matches DoView::Machine(LoginActionView::SendCode(number))
                &&& number == seq!['+'] + edit.field@.text
            }
            &&& is_confirming(key) && !(s.login.screen is Waiting) ==> h == Handled::Consumed
            &&& !is_confirming(key) ==> fx.len() == 0
            &&& key == Key::Softkey(Softkey::Right) && s.login.screen is Phone ==> n.should_exit
            &&& !(key == Key::Softkey(Softkey::Right) && s.login.screen is Phone) ==> n.should_exit
                == s.should_exit
            &&& n.login.phone == s.login.phone
            &&& n.store == s.store
            &&& n.screen == s.screen
        }),
{
    reveal_strlit("+");
    assert("+"@ =~= seq!['+']);
}

/// A code that was sent brings up an empty code screen that knows how long the code is; a password
/// that is needed brings up an empty, hidden field with its hint. Neither complains.
pub proof fn the_machine_brings_up_its_screen(l: LoginView, length: Option<i32>, hint: String)
    ensures
        ({
            let (n, p) = login::applied(l, Action::CodeSent { length });
            &&& n.screen matches ScreenView::Code { field, length: shown, error }
            &&& field.text.len() == 0
            &&& !field.masked
            &&& shown == length
            &&& error is None
            &&& n.code_sent
            &&& n.password_needed == l.password_needed
            &&& n.authorized == l.authorized
            &&& n.phone == l.phone
            &&& p is Nothing
        }),
        ({
            let (n, p) = login::applied(l, Action::NeedPassword { hint });
            &&& n.screen matches ScreenView::Password { field, hint: shown, error }
            &&& field.text.len() == 0
            &&& field.masked
            &&& shown == hint@
            &&& error is None
            &&& n.password_needed
            &&& n.code_sent == l.code_sent
            &&& n.authorized == l.authorized
            &&& n.phone == l.phone
            &&& p is Nothing
        }),
{
}

/// A number has at most sixteen digits, a code eight and a password a hundred and twenty-eight
/// characters; only a password is hidden.
pub proof fn fields_take_what_they_are_for(l: LoginView, length: Option<i32>, hint: String, e: AuthError)
    ensures
        field_of(login::at_phone()) matches Some(f) && f.limit == 16 && !f.masked && f.text.len() == 0
            && f.cursor == 0,
        error_of(login::at_phone()) is None,
        field_of(login::applied(l, Action::CodeSent { length }).0.screen) matches Some(f) && f.limit
            == 8 && !f.masked && f.cursor == 0,
        field_of(login::applied(l, Action::NeedPassword { hint }).0.screen) matches Some(f) && f.limit
            == 128 && f.masked && f.cursor == 0,
        l.screen is Waiting ==> (field_of(login::applied(l, Action::Failed(e)).0.screen) matches Some(
            f,
        ) && f.limit == 16 && !f.masked),
{
}

/// What went wrong is shown in its own words on the screen it went wrong on, where what was typed
/// stays; a screen that waits gives way to an empty phone screen that says so.
pub proof fn what_went_wrong_is_shown(l: LoginView, e: AuthError)
    ensures
        ({
            let (n, p) = login::applied(l, Action::Failed(e));
            &&& p == Progress::Error(e)
            &&& error_of(n.screen) == Some(login::error_words(e))
            &&& !(l.screen is Waiting) ==> field_of(n.screen) == field_of(l.screen)
            &&& l.screen is Phone ==> n.screen is Phone
            &&& l.screen is Code ==> n.screen is Code
            &&& l.screen is Password ==> n.screen is Password
            &&& l.screen is Waiting ==> {
                &&& n.screen is Phone
                &&& field_of(n.screen) matches Some(f)
                &&& f.text.len() == 0
            }
            &&& n.authorized == l.authorized
            &&& n.phone == l.phone
        }),
{
}

/// A complaint is shown on whatever screen is up.
pub proof fn a_complaint_is_shown(s: ScreenView, words: Seq<char>)
    ensures
        error_of(login::with_error(s, words)) == Some(words),
        !(s is Waiting) ==> field_of(login::with_error(s, words)) == field_of(s),
        s matches ScreenView::Code { length, .. } ==> (login::with_error(s, words)
            matches ScreenView::Code { length: n, .. } && n == length),
        s matches ScreenView::Password { hint, .. } ==> (login::with_error(s, words)
            matches ScreenView::Password { hint: h, .. } && h == hint),
        s is Phone || s is Waiting ==> login::with_error(s, words) is Phone,
{
}

/// Each error has words of its own, and one that says how long to wait says that many seconds.
pub proof fn errors_are_told_apart(n: u32, s: String)
    ensures
        login::error_words(AuthError::PhoneNumberInvalid).len() == 36,
        login::error_words(AuthError::PhoneCodeInvalid).len() == 43,
        login::error_words(AuthError::PhoneCodeExpired).len() == 50,
        login::error_words(AuthError::PasswordInvalid).len() == 15,
        login::error_words(AuthError::SignUpRequired).len() == 58,
        login::error_words(AuthError::ApiIdInvalid).len() == 38,
        login::error_words(AuthError::Other(s)) == s@,
        ({
            let words = login::error_words(AuthError::FloodWait(n));
            &&& words.len() > 36
            &&& words.subrange(0, 27) == "Muitas tentativas. Aguarde "@
            &&& content_laws::value(words.subrange(27, words.len() - 9)) == n
            &&& words.subrange(words.len() - 9, words.len() as int) == " segundos"@
        }),
{
    reveal_strlit("Número não reconhecido pelo Telegram");
    reveal_strlit("Código incorreto. Verifique e tente de novo");
    reveal_strlit("O código expirou. Solicite um novo e tente de novo");
    reveal_strlit("Senha incorreta");
    reveal_strlit("Este número não tem conta. Este cliente não pode criar uma");
    reveal_strlit("Erro de configuração (api_id inválido)");
    reveal_strlit("Muitas tentativas. Aguarde ");
    reveal_strlit(" segundos");
    content_laws::a_number_reads_back(n as nat);
    let digits = text::decimal(n as nat);
    let words = login::error_words(AuthError::FloodWait(n));
    assert(words.subrange(0, 27) =~= "Muitas tentativas. Aguarde "@);
    assert(words.subrange(27, words.len() - 9) =~= digits);
    assert(words.subrange(words.len() - 9, words.len() as int) =~= " segundos"@);
}

/// What the machine asks of the connection is handed on as it is: a request with its bytes and its
/// tag, and work with each of its numbers in its own place. The screen stays.
pub proof fn what_the_machine_asks_for_is_handed_on(
    l: LoginView,
    a: Vec<u8>,
    b: Vec<u8>,
    c: Vec<u8>,
    tag: u32,
    dc: u8,
)
    ensures
        ({
            let (n, p) = login::applied(l, Action::Call { body: a, tag });
            &&& p matches Progress::Call { body, tag: t }
            &&& body == a
            &&& t == tag
            &&& n == l
        }),
        ({
            let (n, p) = login::applied(l, Action::Kdf { password: a, salt1: b, salt2: c });
            &&& p matches Progress::Kdf { password, salt1, salt2 }
            &&& password == a
            &&& salt1 == b
            &&& salt2 == c
            &&& n == l
        }),
        ({
            let (n, p) = login::applied(l, Action::ModPow { base: a, exp: b, modulus: c });
            &&& p matches Progress::ModPow { base, exp, modulus }
            &&& base == a
            &&& exp == b
            &&& modulus == c
            &&& n == l
        }),
        login::applied(l, Action::Migrate(dc)).1 == Progress::Migrate(dc),
        login::applied(l, Action::Authorized).1 is Authorized,
        login::applied(l, Action::Authorized).0.authorized,
        login::applied(l, Action::Authorized).0.screen == l.screen,
{
}

/// Whether a login waits.
pub open spec fn waits(l: LoginView) -> bool {
    l.screen is Waiting
}

/// An action that was handed to the machine leaves the login waiting, and what the machine makes of it
/// goes out on the link of the account as it is. A number that was sent is the number of the login.
pub proof fn an_action_is_carried_out(
    s: AppView,
    a: LoginActionView,
    body: Vec<u8>,
    b: Vec<u8>,
    c: Vec<u8>,
    tag: u32,
)
    requires
        s.driver is Some,
        s.driver->0.home is Some,
        !(a is Back) && !(a is Nothing),
    ensures
        ({
            let (n, fx) = app::machine_answered(s, a, Action::Call { body, tag });
            &&& fx == seq![
                FxView::Do(
                    Effect::Call(Call { on: On::Home, request: Request::Login(body), tag }),
                ),
            ]
            &&& waits(n.login)
            &&& n.store == s.store
            &&& n.screen == s.screen
            &&& a matches LoginActionView::SendCode(number) ==> n.login.phone == number
            &&& !(a is SendCode) ==> n.login.phone == s.login.phone
            &&& n.login.authorized == s.login.authorized
        }),
        ({
            let (n, fx) = app::machine_answered(
                s,
                a,
                Action::Kdf { password: body, salt1: b, salt2: c },
            );
            &&& fx == seq![
                FxView::Do(
                    Effect::Submit(Queued::Kdf { password: body, salt1: b, salt2: c }),
                ),
            ]
            &&& waits(n.login)
        }),
        ({
            let (n, fx) = app::machine_answered(
                s,
                a,
                Action::ModPow { base: body, exp: b, modulus: c },
            );
            &&& fx == seq![
                FxView::Do(
                    Effect::Submit(Queued::ModPow { base: body, exp: b, modulus: c }),
                ),
            ]
            &&& waits(n.login)
        }),
{
}

/// What the connection cannot carry is said on the login screen rather than waited for; going back,
/// or nothing, is no business of the machine's.
pub proof fn what_cannot_be_carried_is_said(
    s: AppView,
    a: LoginActionView,
    body: Vec<u8>,
    tag: u32,
    act: Action,
)
    requires
        s.driver is Some,
        s.driver->0.home is None,
    ensures
        !(a is Back) && !(a is Nothing) ==> {
            let (n, fx) = app::machine_answered(s, a, Action::Call { body, tag });
            &&& fx.len() == 0
            &&& !waits(n.login)
            &&& error_of(n.login.screen) == Some("sem conexão"@)
        },
        app::machine_answered(s, LoginActionView::Back, act).0 == s,
        app::machine_answered(s, LoginActionView::Back, act).1.len() == 0,
        app::machine_answered(s, LoginActionView::Nothing, act).0 == s,
        app::machine_answered(s, LoginActionView::Nothing, act).1.len() == 0,
{
}

/// Without anything that drives a connection, what is handed to the machine still waits for it.
pub proof fn a_login_waits_even_undriven(s: AppView, number: Seq<char>, act: Action)
    requires
        s.driver is None,
    ensures
        ({
            let (n, fx) = app::machine_answered(s, LoginActionView::SendCode(number), act);
            &&& waits(n.login)
            &&& n.login.phone == number
            &&& fx.len() == 0
            &&& n.driver is None
        }),
{
}

/// Each step that waits says what it waits for.
pub proof fn a_wait_says_what_for(l: LoginView, number: Seq<char>, bytes: Seq<u8>, act: Action)
    ensures
        app::handed(l, LoginActionView::SendCode(number), act).screen == ScreenView::Waiting(
            "sending the code",
        ),
        app::handed(l, LoginActionView::SubmitCode(number), act).screen == ScreenView::Waiting(
            "signing in",
        ),
        app::handed(l, LoginActionView::SubmitPassword(bytes), act).screen == ScreenView::Waiting(
            "checking the password",
        ),
        app::handed(l, LoginActionView::Resend, act).screen == ScreenView::Waiting(
            "resending the code",
        ),
        app::handed(l, LoginActionView::Resend, act).authorized == (l.authorized || act
            is Authorized),
        app::handed(l, LoginActionView::SendCode(number), act).authorized == (l.authorized || act
            is Authorized),
        app::handed(l, LoginActionView::SubmitCode(number), act).authorized == (l.authorized || act
            is Authorized),
        app::handed(l, LoginActionView::SubmitPassword(bytes), act).authorized == (l.authorized
            || act is Authorized),
{
}

/// Showing a password and hiding it again leaves it as it was: only whether it is hidden changes, and
/// only on the password screen.
pub proof fn showing_a_password_changes_nothing_else(s: ScreenView)
    ensures
        login::mask_flipped(login::mask_flipped(s)) == s,
        !(s is Password) ==> login::mask_flipped(s) == s,
        s matches ScreenView::Password { field, hint, error } ==> {
            &&& login::mask_flipped(s) matches ScreenView::Password {
                field: f,
                hint: h,
                error: e,
            }
            &&& f.masked != field.masked
            &&& f.text == field.text
            &&& f.cursor == field.cursor
            &&& f.limit == field.limit
            &&& h == hint
            &&& e == error
        },
{
}

/// A screen that is given another field holds that field, and is otherwise as it was.
pub proof fn a_field_is_put_in_its_place(s: ScreenView, f: FieldView)
    ensures
        s is Waiting ==> login::with_field(s, f) == s,
        !(s is Waiting) ==> field_of(login::with_field(s, f)) == Some(f),
        error_of(login::with_field(s, f)) == error_of(s),
        s is Phone ==> login::with_field(s, f) is Phone,
        s matches ScreenView::Code { length, .. } ==> (login::with_field(s, f)
            matches ScreenView::Code { length: n, .. } && n == length),
        s matches ScreenView::Password { hint, .. } ==> (login::with_field(s, f)
            matches ScreenView::Password { hint: h, .. } && h == hint),
{
}

/// The login screens hear what the connection says of itself, and nothing else of them changes.
pub proof fn the_login_hears_the_connection(
    s: AppView,
    d: crate::driver::DriverView,
    ready: bool,
)
    ensures
        ({
            let n = app::driven(s, d, ready);
            &&& n.login.status == d.status
            &&& n.login.connected <==> d.home is Some && ready
            &&& n.login.screen == s.login.screen
            &&& n.login.phone == s.login.phone
            &&& n.login.authorized == s.login.authorized
            &&& n.driver == Some(d)
            &&& n.store == s.store
            &&& n.screen == s.screen
            &&& n.pending == s.pending
        }),
{
}

} // verus!
