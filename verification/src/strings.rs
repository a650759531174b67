//! What this client says, in both languages.
//!
//! The failures are the biggest part, because they are the part a person reads: each names one
//! thing that went wrong, and no two read alike.

use vstd::prelude::*;

verus! {

/// A language the client speaks.
#[derive(Clone, Copy, Debug, PartialEq, Eq, Structural)]
pub enum Lang {
    En,
    Pt,
}

/// The wording for a language.
pub open spec fn wording(lang: Lang, en: &'static str, pt: &'static str) -> &'static str {
    match lang {
        Lang::En => en,
        Lang::Pt => pt,
    }
}

/// Go on from a code or a password.
pub fn sign_in(lang: Lang) -> (r: &'static str)
    ensures
        r == wording(lang, "Sign in", "Entrar"),
{
    match lang {
        Lang::En => "Sign in",
        Lang::Pt => "Entrar",
    }
}

/// Go on from the phone number.
pub fn next(lang: Lang) -> (r: &'static str)
    ensures
        r == wording(lang, "Next", "Avançar"),
{
    match lang {
        Lang::En => "Next",
        Lang::Pt => "Avançar",
    }
}

/// The label of the phone field.
pub fn phone_number(lang: Lang) -> (r: &'static str)
    ensures
        r == wording(lang, "Phone number", "Número de telefone"),
{
    match lang {
        Lang::En => "Phone number",
        Lang::Pt => "Número de telefone",
    }
}

/// What the code screen is called.
pub fn code(lang: Lang) -> (r: &'static str)
    ensures
        r == wording(lang, "code", "código"),
{
    match lang {
        Lang::En => "code",
        Lang::Pt => "código",
    }
}

/// Asks for a code of unknown length.
pub fn enter_sms_code(lang: Lang) -> (r: &'static str)
    ensures
        r == wording(lang, "Enter the code sent by SMS", "Digite o código enviado por SMS"),
{
    match lang {
        Lang::En => "Enter the code sent by SMS",
        Lang::Pt => "Digite o código enviado por SMS",
    }
}

/// The tail of "5 digits".
pub fn digits_suffix(lang: Lang) -> (r: &'static str)
    ensures
        r == wording(lang, " digits", " dígitos"),
{
    match lang {
        Lang::En => " digits",
        Lang::Pt => " dígitos",
    }
}

/// Send a message.
pub fn send(lang: Lang) -> (r: &'static str)
    ensures
        r == wording(lang, "Send", "Enviar"),
{
    match lang {
        Lang::En => "Send",
        Lang::Pt => "Enviar",
    }
}

/// Fetch again now.
pub fn refresh(lang: Lang) -> (r: &'static str)
    ensures
        r == wording(lang, "Refresh", "Atualizar"),
{
    match lang {
        Lang::En => "Refresh",
        Lang::Pt => "Atualizar",
    }
}

/// The label of the code field.
pub fn code_field(lang: Lang) -> (r: &'static str)
    ensures
        r == wording(lang, "Code", "Código"),
{
    match lang {
        Lang::En => "Code",
        Lang::Pt => "Código",
    }
}

/// The device log.
pub fn debug_log(lang: Lang) -> (r: &'static str)
    ensures
        r == wording(lang, "Debug log", "Log de depuração"),
{
    match lang {
        Lang::En => "Debug log",
        Lang::Pt => "Log de depuração",
    }
}

/// A photo without words.
pub fn media_photo(lang: Lang) -> (r: &'static str)
    ensures
        r == wording(lang, "Photo", "Foto"),
{
    match lang {
        Lang::En => "Photo",
        Lang::Pt => "Foto",
    }
}

/// A voice note without words.
pub fn media_voice(lang: Lang) -> (r: &'static str)
    ensures
        r == wording(lang, "Voice message", "Mensagem de voz"),
{
    match lang {
        Lang::En => "Voice message",
        Lang::Pt => "Mensagem de voz",
    }
}

/// A track without words.
pub fn media_audio(lang: Lang) -> (r: &'static str)
    ensures
        r == wording(lang, "Audio", "Áudio"),
{
    match lang {
        Lang::En => "Audio",
        Lang::Pt => "Áudio",
    }
}

/// A file without words.
pub fn media_file(lang: Lang) -> (r: &'static str)
    ensures
        r == wording(lang, "File", "Arquivo"),
{
    match lang {
        Lang::En => "File",
        Lang::Pt => "Arquivo",
    }
}

/// Something else without words.
pub fn media_other(lang: Lang) -> (r: &'static str)
    ensures
        r == wording(lang, "Media", "Mídia"),
{
    match lang {
        Lang::En => "Media",
        Lang::Pt => "Mídia",
    }
}

/// Nothing is connected yet.
pub fn not_connected_yet(lang: Lang) -> (r: &'static str)
    ensures
        r == wording(lang, "not connected yet", "ainda não conectado"),
{
    match lang {
        Lang::En => "not connected yet",
        Lang::Pt => "ainda não conectado",
    }
}

/// Says: no connection.
pub fn no_connection(lang: Lang) -> (r: &'static str)
    ensures
        r == wording(lang, "no connection", "sem conexão"),
{
    match lang {
        Lang::En => "no connection",
        Lang::Pt => "sem conexão",
    }
}

/// Says: no network connection.
pub fn no_network(lang: Lang) -> (r: &'static str)
    ensures
        r == wording(lang, "no network connection", "sem conexão de rede"),
{
    match lang {
        Lang::En => "no network connection",
        Lang::Pt => "sem conexão de rede",
    }
}

/// The platform waits for the user to pick a connection.
pub fn look_for_the_dialog(lang: Lang) -> (r: &'static str)
    ensures
        r == wording(lang, "look for the connection dialog", "procure o diálogo de conexão"),
{
    match lang {
        Lang::En => "look for the connection dialog",
        Lang::Pt => "procure o diálogo de conexão",
    }
}

/// Says: could not open the socket.
pub fn could_not_open_socket(lang: Lang) -> (r: &'static str)
    ensures
        r == wording(lang, "could not open the socket", "não consegui abrir o socket"),
{
    match lang {
        Lang::En => "could not open the socket",
        Lang::Pt => "não consegui abrir o socket",
    }
}

/// Says: could not reach the server.
pub fn could_not_reach_server(lang: Lang) -> (r: &'static str)
    ensures
        r == wording(lang, "could not reach the server", "não consegui alcançar o servidor"),
{
    match lang {
        Lang::En => "could not reach the server",
        Lang::Pt => "não consegui alcançar o servidor",
    }
}

/// Says: the server did not answer.
pub fn server_did_not_answer(lang: Lang) -> (r: &'static str)
    ensures
        r == wording(lang, "the server did not answer", "o servidor não respondeu"),
{
    match lang {
        Lang::En => "the server did not answer",
        Lang::Pt => "o servidor não respondeu",
    }
}

/// Says: could not switch server.
pub fn could_not_switch_server(lang: Lang) -> (r: &'static str)
    ensures
        r == wording(lang, "could not switch server", "não consegui mudar de servidor"),
{
    match lang {
        Lang::En => "could not switch server",
        Lang::Pt => "não consegui mudar de servidor",
    }
}

/// Says: the server refused the request several times.
pub fn server_refused_repeatedly(lang: Lang) -> (r: &'static str)
    ensures
        r == wording(lang, "the server refused the request several times", "o servidor recusou o pedido várias vezes"),
{
    match lang {
        Lang::En => "the server refused the request several times",
        Lang::Pt => "o servidor recusou o pedido várias vezes",
    }
}

/// Says: could not resend the request.
pub fn could_not_resend(lang: Lang) -> (r: &'static str)
    ensures
        r == wording(lang, "could not resend the request", "não consegui reenviar o pedido"),
{
    match lang {
        Lang::En => "could not resend the request",
        Lang::Pt => "não consegui reenviar o pedido",
    }
}

/// The server refuses the timestamps of this phone.
pub fn clock_is_wrong(lang: Lang) -> (r: &'static str)
    ensures
        r == wording(lang, "the phone's clock is badly wrong", "o relógio do telefone está muito errado"),
{
    match lang {
        Lang::En => "the phone's clock is badly wrong",
        Lang::Pt => "o relógio do telefone está muito errado",
    }
}

/// Says: could not resend after adjusting the clock.
pub fn could_not_resend_after_clock(lang: Lang) -> (r: &'static str)
    ensures
        r == wording(lang, "could not resend after adjusting the clock", "não consegui reenviar depois de ajustar o relógio"),
{
    match lang {
        Lang::En => "could not resend after adjusting the clock",
        Lang::Pt => "não consegui reenviar depois de ajustar o relógio",
    }
}

/// Says: unreadable response.
pub fn unreadable_response(lang: Lang) -> (r: &'static str)
    ensures
        r == wording(lang, "unreadable response", "resposta ilegível"),
{
    match lang {
        Lang::En => "unreadable response",
        Lang::Pt => "resposta ilegível",
    }
}

/// Says: could not decrypt.
pub fn could_not_decrypt(lang: Lang) -> (r: &'static str)
    ensures
        r == wording(lang, "could not decrypt", "não consegui decifrar"),
{
    match lang {
        Lang::En => "could not decrypt",
        Lang::Pt => "não consegui decifrar",
    }
}

/// Says: could not compute the key.
pub fn could_not_compute_key(lang: Lang) -> (r: &'static str)
    ensures
        r == wording(lang, "could not compute the key", "não consegui calcular a chave"),
{
    match lang {
        Lang::En => "could not compute the key",
        Lang::Pt => "não consegui calcular a chave",
    }
}

/// Says: handshake: unreadable TL.
pub fn handshake_unreadable_tl(lang: Lang) -> (r: &'static str)
    ensures
        r == wording(lang, "handshake: unreadable TL", "handshake: TL ilegível"),
{
    match lang {
        Lang::En => "handshake: unreadable TL",
        Lang::Pt => "handshake: TL ilegível",
    }
}

/// Says: handshake: could not factor pq.
pub fn handshake_no_factor(lang: Lang) -> (r: &'static str)
    ensures
        r == wording(lang, "handshake: could not factor pq", "handshake: não fatorei o pq"),
{
    match lang {
        Lang::En => "handshake: could not factor pq",
        Lang::Pt => "handshake: não fatorei o pq",
    }
}

/// Says: handshake: invalid DH parameters.
pub fn handshake_bad_dh(lang: Lang) -> (r: &'static str)
    ensures
        r == wording(lang, "handshake: invalid DH parameters", "handshake: parâmetros DH inválidos"),
{
    match lang {
        Lang::En => "handshake: invalid DH parameters",
        Lang::Pt => "handshake: parâmetros DH inválidos",
    }
}

/// Says: handshake: nonce mismatch.
pub fn handshake_nonce_mismatch(lang: Lang) -> (r: &'static str)
    ensures
        r == wording(lang, "handshake: nonce mismatch", "handshake: nonce não confere"),
{
    match lang {
        Lang::En => "handshake: nonce mismatch",
        Lang::Pt => "handshake: nonce não confere",
    }
}

/// Says: handshake: key generation failed.
pub fn handshake_key_failed(lang: Lang) -> (r: &'static str)
    ensures
        r == wording(lang, "handshake: key generation failed", "handshake: geração da chave falhou"),
{
    match lang {
        Lang::En => "handshake: key generation failed",
        Lang::Pt => "handshake: geração da chave falhou",
    }
}

/// Says: handshake: keys do not match.
pub fn handshake_keys_differ(lang: Lang) -> (r: &'static str)
    ensures
        r == wording(lang, "handshake: keys do not match", "handshake: as chaves não batem"),
{
    match lang {
        Lang::En => "handshake: keys do not match",
        Lang::Pt => "handshake: as chaves não batem",
    }
}

/// The server refused the code.
pub fn wrong_code(lang: Lang) -> (r: &'static str)
    ensures
        r == wording(lang, "Wrong code. Check it and try again", "Código incorreto. Verifique e tente de novo"),
{
    match lang {
        Lang::En => "Wrong code. Check it and try again",
        Lang::Pt => "Código incorreto. Verifique e tente de novo",
    }
}

/// The server refused the number.
pub fn unknown_number(lang: Lang) -> (r: &'static str)
    ensures
        r == wording(lang, "Telegram does not recognise that number", "Número não reconhecido pelo Telegram"),
{
    match lang {
        Lang::En => "Telegram does not recognise that number",
        Lang::Pt => "Número não reconhecido pelo Telegram",
    }
}

/// The build carries no usable credentials.
pub fn bad_api_id(lang: Lang) -> (r: &'static str)
    ensures
        r == wording(lang, "Configuration error (invalid api_id)", "Erro de configuração (api_id inválido)"),
{
    match lang {
        Lang::En => "Configuration error (invalid api_id)",
        Lang::Pt => "Erro de configuração (api_id inválido)",
    }
}

/// What the phone screen is called.
pub fn title_sign_in(lang: Lang) -> (r: &'static str)
    ensures
        r == wording(lang, "sign in", "entrar"),
{
    match lang {
        Lang::En => "sign in",
        Lang::Pt => "entrar",
    }
}

/// What the password screen is called.
pub fn password(lang: Lang) -> (r: &'static str)
    ensures
        r == wording(lang, "password", "senha"),
{
    match lang {
        Lang::En => "password",
        Lang::Pt => "senha",
    }
}

/// The label of the password field.
pub fn two_factor_password(lang: Lang) -> (r: &'static str)
    ensures
        r == wording(lang, "Two-factor password", "Senha de dois fatores"),
{
    match lang {
        Lang::En => "Two-factor password",
        Lang::Pt => "Senha de dois fatores",
    }
}

/// Said in place of an error when the build carries no credentials.
pub fn no_api_id(lang: Lang) -> (r: &'static str)
    ensures
        r == wording(lang, "no api_id: see apps/telegram/api.conf.example", "sem api_id: veja apps/telegram/api.conf.example"),
{
    match lang {
        Lang::En => "no api_id: see apps/telegram/api.conf.example",
        Lang::Pt => "sem api_id: veja apps/telegram/api.conf.example",
    }
}

/// The head of "Enter the 5 digits".
pub fn enter_the(lang: Lang) -> (r: &'static str)
    ensures
        r == wording(lang, "Enter the ", "Digite os "),
{
    match lang {
        Lang::En => "Enter the ",
        Lang::Pt => "Digite os ",
    }
}

/// Make a password readable.
pub fn show(lang: Lang) -> (r: &'static str)
    ensures
        r == wording(lang, "Show", "Mostrar"),
{
    match lang {
        Lang::En => "Show",
        Lang::Pt => "Mostrar",
    }
}

/// Make a password unreadable.
pub fn conceal(lang: Lang) -> (r: &'static str)
    ensures
        r == wording(lang, "Hide", "Ocultar"),
{
    match lang {
        Lang::En => "Hide",
        Lang::Pt => "Ocultar",
    }
}

/// There is nothing above what this phone keeps.
pub fn start_of_stored(lang: Lang) -> (r: &'static str)
    ensures
        r == wording(lang, "start of what is stored", "inicio do que esta guardado"),
{
    match lang {
        Lang::En => "start of what is stored",
        Lang::Pt => "inicio do que esta guardado",
    }
}

/// Every entry, in both languages.
pub open spec fn all_entries() -> Seq<(&'static str, &'static str)> {
    seq![
        ("Sign in", "Entrar"),
        ("Next", "Avançar"),
        ("Phone number", "Número de telefone"),
        ("code", "código"),
        ("Enter the code sent by SMS", "Digite o código enviado por SMS"),
        (" digits", " dígitos"),
        ("Send", "Enviar"),
        ("Refresh", "Atualizar"),
        ("Code", "Código"),
        ("Debug log", "Log de depuração"),
        ("Photo", "Foto"),
        ("Voice message", "Mensagem de voz"),
        ("Audio", "Áudio"),
        ("File", "Arquivo"),
        ("Media", "Mídia"),
        ("not connected yet", "ainda não conectado"),
        ("no connection", "sem conexão"),
        ("no network connection", "sem conexão de rede"),
        ("look for the connection dialog", "procure o diálogo de conexão"),
        ("could not open the socket", "não consegui abrir o socket"),
        ("could not reach the server", "não consegui alcançar o servidor"),
        ("the server did not answer", "o servidor não respondeu"),
        ("could not switch server", "não consegui mudar de servidor"),
        (
            "the server refused the request several times",
            "o servidor recusou o pedido várias vezes",
        ),
        ("could not resend the request", "não consegui reenviar o pedido"),
        ("the phone's clock is badly wrong", "o relógio do telefone está muito errado"),
        (
            "could not resend after adjusting the clock",
            "não consegui reenviar depois de ajustar o relógio",
        ),
        ("unreadable response", "resposta ilegível"),
        ("could not decrypt", "não consegui decifrar"),
        ("could not compute the key", "não consegui calcular a chave"),
        ("handshake: unreadable TL", "handshake: TL ilegível"),
        ("handshake: could not factor pq", "handshake: não fatorei o pq"),
        ("handshake: invalid DH parameters", "handshake: parâmetros DH inválidos"),
        ("handshake: nonce mismatch", "handshake: nonce não confere"),
        ("handshake: key generation failed", "handshake: geração da chave falhou"),
        ("handshake: keys do not match", "handshake: as chaves não batem"),
        ("Wrong code. Check it and try again", "Código incorreto. Verifique e tente de novo"),
        ("Telegram does not recognise that number", "Número não reconhecido pelo Telegram"),
        ("Configuration error (invalid api_id)", "Erro de configuração (api_id inválido)"),
        ("sign in", "entrar"),
        ("password", "senha"),
        ("Two-factor password", "Senha de dois fatores"),
        (
            "no api_id: see apps/telegram/api.conf.example",
            "sem api_id: veja apps/telegram/api.conf.example",
        ),
        ("Enter the ", "Digite os "),
        ("Show", "Mostrar"),
        ("Hide", "Ocultar"),
        ("start of what is stored", "inicio do que esta guardado"),
    ]
}

/// What says that something failed, in both languages.
pub open spec fn all_failures() -> Seq<(&'static str, &'static str)> {
    seq![
        ("not connected yet", "ainda não conectado"),
        ("no connection", "sem conexão"),
        ("no network connection", "sem conexão de rede"),
        ("look for the connection dialog", "procure o diálogo de conexão"),
        ("could not open the socket", "não consegui abrir o socket"),
        ("could not reach the server", "não consegui alcançar o servidor"),
        ("the server did not answer", "o servidor não respondeu"),
        ("could not switch server", "não consegui mudar de servidor"),
        (
            "the server refused the request several times",
            "o servidor recusou o pedido várias vezes",
        ),
        ("could not resend the request", "não consegui reenviar o pedido"),
        ("the phone's clock is badly wrong", "o relógio do telefone está muito errado"),
        (
            "could not resend after adjusting the clock",
            "não consegui reenviar depois de ajustar o relógio",
        ),
        ("unreadable response", "resposta ilegível"),
        ("could not decrypt", "não consegui decifrar"),
        ("could not compute the key", "não consegui calcular a chave"),
        ("handshake: unreadable TL", "handshake: TL ilegível"),
        ("handshake: could not factor pq", "handshake: não fatorei o pq"),
        ("handshake: invalid DH parameters", "handshake: parâmetros DH inválidos"),
        ("handshake: nonce mismatch", "handshake: nonce não confere"),
        ("handshake: key generation failed", "handshake: geração da chave falhou"),
        ("handshake: keys do not match", "handshake: as chaves não batem"),
    ]
}

/// Nothing was filled in by copying: every entry reads differently in the two languages.
pub proof fn no_entry_is_the_same_in_both_languages(i: int)
    requires
        0 <= i < all_entries().len(),
    ensures
        all_entries()[i].0@ != all_entries()[i].1@,
{
    reveal_strlit("Sign in");
    reveal_strlit("Entrar");
    reveal_strlit("Next");
    reveal_strlit("Avançar");
    reveal_strlit("Phone number");
    reveal_strlit("Número de telefone");
    reveal_strlit("code");
    reveal_strlit("código");
    reveal_strlit("Enter the code sent by SMS");
    reveal_strlit("Digite o código enviado por SMS");
    reveal_strlit(" digits");
    reveal_strlit(" dígitos");
    reveal_strlit("Send");
    reveal_strlit("Enviar");
    reveal_strlit("Refresh");
    reveal_strlit("Atualizar");
    reveal_strlit("Code");
    reveal_strlit("Código");
    reveal_strlit("Debug log");
    reveal_strlit("Log de depuração");
    reveal_strlit("Photo");
    reveal_strlit("Foto");
    reveal_strlit("Voice message");
    reveal_strlit("Mensagem de voz");
    reveal_strlit("Audio");
    reveal_strlit("Áudio");
    reveal_strlit("File");
    reveal_strlit("Arquivo");
    reveal_strlit("Media");
    reveal_strlit("Mídia");
    reveal_strlit("not connected yet");
    reveal_strlit("ainda não conectado");
    reveal_strlit("no connection");
    reveal_strlit("sem conexão");
    reveal_strlit("no network connection");
    reveal_strlit("sem conexão de rede");
    reveal_strlit("look for the connection dialog");
    reveal_strlit("procure o diálogo de conexão");
    reveal_strlit("could not open the socket");
    reveal_strlit("não consegui abrir o socket");
    reveal_strlit("could not reach the server");
    reveal_strlit("não consegui alcançar o servidor");
    reveal_strlit("the server did not answer");
    reveal_strlit("o servidor não respondeu");
    reveal_strlit("could not switch server");
    reveal_strlit("não consegui mudar de servidor");
    reveal_strlit("the server refused the request several times");
    reveal_strlit("o servidor recusou o pedido várias vezes");
    reveal_strlit("could not resend the request");
    reveal_strlit("não consegui reenviar o pedido");
    reveal_strlit("the phone's clock is badly wrong");
    reveal_strlit("o relógio do telefone está muito errado");
    reveal_strlit("could not resend after adjusting the clock");
    reveal_strlit("não consegui reenviar depois de ajustar o relógio");
    reveal_strlit("unreadable response");
    reveal_strlit("resposta ilegível");
    reveal_strlit("could not decrypt");
    reveal_strlit("não consegui decifrar");
    reveal_strlit("could not compute the key");
    reveal_strlit("não consegui calcular a chave");
    reveal_strlit("handshake: unreadable TL");
    reveal_strlit("handshake: TL ilegível");
    reveal_strlit("handshake: could not factor pq");
    reveal_strlit("handshake: não fatorei o pq");
    reveal_strlit("handshake: invalid DH parameters");
    reveal_strlit("handshake: parâmetros DH inválidos");
    reveal_strlit("handshake: nonce mismatch");
    reveal_strlit("handshake: nonce não confere");
    reveal_strlit("handshake: key generation failed");
    reveal_strlit("handshake: geração da chave falhou");
    reveal_strlit("handshake: keys do not match");
    reveal_strlit("handshake: as chaves não batem");
    reveal_strlit("Wrong code. Check it and try again");
    reveal_strlit("Código incorreto. Verifique e tente de novo");
    reveal_strlit("Telegram does not recognise that number");
    reveal_strlit("Número não reconhecido pelo Telegram");
    reveal_strlit("Configuration error (invalid api_id)");
    reveal_strlit("Erro de configuração (api_id inválido)");
    reveal_strlit("sign in");
    reveal_strlit("entrar");
    reveal_strlit("password");
    reveal_strlit("senha");
    reveal_strlit("Two-factor password");
    reveal_strlit("Senha de dois fatores");
    reveal_strlit("no api_id: see apps/telegram/api.conf.example");
    reveal_strlit("sem api_id: veja apps/telegram/api.conf.example");
    reveal_strlit("Enter the ");
    reveal_strlit("Digite os ");
    reveal_strlit("Show");
    reveal_strlit("Mostrar");
    reveal_strlit("Hide");
    reveal_strlit("Ocultar");
    reveal_strlit("start of what is stored");
    reveal_strlit("inicio do que esta guardado");
    assert("Sign in"@.len() == 7);
    assert("Entrar"@.len() == 6);
    assert("Next"@.len() == 4);
    assert("Avançar"@.len() == 7);
    assert("Phone number"@.len() == 12);
    assert("Número de telefone"@.len() == 18);
    assert("code"@.len() == 4);
    assert("código"@.len() == 6);
    assert("Enter the code sent by SMS"@.len() == 26);
    assert("Digite o código enviado por SMS"@.len() == 31);
    assert(" digits"@.len() == 7);
    assert(" dígitos"@.len() == 8);
    assert("Send"@.len() == 4);
    assert("Enviar"@.len() == 6);
    assert("Refresh"@.len() == 7);
    assert("Atualizar"@.len() == 9);
    assert("Code"@.len() == 4);
    assert("Código"@.len() == 6);
    assert("Debug log"@.len() == 9);
    assert("Log de depuração"@.len() == 16);
    assert("Photo"@.len() == 5);
    assert("Foto"@.len() == 4);
    assert("Voice message"@.len() == 13);
    assert("Mensagem de voz"@.len() == 15);
    assert("Audio"@[0] == 'A');
    assert("Áudio"@[0] == 'Á');
    assert("File"@.len() == 4);
    assert("Arquivo"@.len() == 7);
    assert("Media"@[1] == 'e');
    assert("Mídia"@[1] == 'í');
    assert("not connected yet"@.len() == 17);
    assert("ainda não conectado"@.len() == 19);
    assert("no connection"@.len() == 13);
    assert("sem conexão"@.len() == 11);
    assert("no network connection"@.len() == 21);
    assert("sem conexão de rede"@.len() == 19);
    assert("look for the connection dialog"@.len() == 30);
    assert("procure o diálogo de conexão"@.len() == 28);
    assert("could not open the socket"@.len() == 25);
    assert("não consegui abrir o socket"@.len() == 27);
    assert("could not reach the server"@.len() == 26);
    assert("não consegui alcançar o servidor"@.len() == 32);
    assert("the server did not answer"@.len() == 25);
    assert("o servidor não respondeu"@.len() == 24);
    assert("could not switch server"@.len() == 23);
    assert("não consegui mudar de servidor"@.len() == 30);
    assert("the server refused the request several times"@.len() == 44);
    assert("o servidor recusou o pedido várias vezes"@.len() == 40);
    assert("could not resend the request"@.len() == 28);
    assert("não consegui reenviar o pedido"@.len() == 30);
    assert("the phone's clock is badly wrong"@.len() == 32);
    assert("o relógio do telefone está muito errado"@.len() == 39);
    assert("could not resend after adjusting the clock"@.len() == 42);
    assert("não consegui reenviar depois de ajustar o relógio"@.len() == 49);
    assert("unreadable response"@.len() == 19);
    assert("resposta ilegível"@.len() == 17);
    assert("could not decrypt"@.len() == 17);
    assert("não consegui decifrar"@.len() == 21);
    assert("could not compute the key"@.len() == 25);
    assert("não consegui calcular a chave"@.len() == 29);
    assert("handshake: unreadable TL"@.len() == 24);
    assert("handshake: TL ilegível"@.len() == 22);
    assert("handshake: could not factor pq"@.len() == 30);
    assert("handshake: não fatorei o pq"@.len() == 27);
    assert("handshake: invalid DH parameters"@.len() == 32);
    assert("handshake: parâmetros DH inválidos"@.len() == 34);
    assert("handshake: nonce mismatch"@.len() == 25);
    assert("handshake: nonce não confere"@.len() == 28);
    assert("handshake: key generation failed"@.len() == 32);
    assert("handshake: geração da chave falhou"@.len() == 34);
    assert("handshake: keys do not match"@.len() == 28);
    assert("handshake: as chaves não batem"@.len() == 30);
    assert("Wrong code. Check it and try again"@.len() == 34);
    assert("Código incorreto. Verifique e tente de novo"@.len() == 43);
    assert("Telegram does not recognise that number"@.len() == 39);
    assert("Número não reconhecido pelo Telegram"@.len() == 36);
    assert("Configuration error (invalid api_id)"@.len() == 36);
    assert("Erro de configuração (api_id inválido)"@.len() == 38);
    assert("sign in"@.len() == 7);
    assert("entrar"@.len() == 6);
    assert("password"@.len() == 8);
    assert("senha"@.len() == 5);
    assert("Two-factor password"@.len() == 19);
    assert("Senha de dois fatores"@.len() == 21);
    assert("no api_id: see apps/telegram/api.conf.example"@.len() == 45);
    assert("sem api_id: veja apps/telegram/api.conf.example"@.len() == 47);
    assert("Enter the "@[0] == 'E');
    assert("Digite os "@[0] == 'D');
    assert("Show"@.len() == 4);
    assert("Mostrar"@.len() == 7);
    assert("Hide"@.len() == 4);
    assert("Ocultar"@.len() == 7);
    assert("start of what is stored"@.len() == 23);
    assert("inicio do que esta guardado"@.len() == 27);
}

proof fn failures_differ_en(i: int, j: int)
    requires
        0 <= i < j < all_failures().len(),
    ensures
        all_failures()[i].0@ != all_failures()[j].0@,
{
    reveal_strlit("not connected yet");
    reveal_strlit("no connection");
    reveal_strlit("no network connection");
    reveal_strlit("look for the connection dialog");
    reveal_strlit("could not open the socket");
    reveal_strlit("could not reach the server");
    reveal_strlit("the server did not answer");
    reveal_strlit("could not switch server");
    reveal_strlit("the server refused the request several times");
    reveal_strlit("could not resend the request");
    reveal_strlit("the phone's clock is badly wrong");
    reveal_strlit("could not resend after adjusting the clock");
    reveal_strlit("unreadable response");
    reveal_strlit("could not decrypt");
    reveal_strlit("could not compute the key");
    reveal_strlit("handshake: unreadable TL");
    reveal_strlit("handshake: could not factor pq");
    reveal_strlit("handshake: invalid DH parameters");
    reveal_strlit("handshake: nonce mismatch");
    reveal_strlit("handshake: key generation failed");
    reveal_strlit("handshake: keys do not match");
    assert("not connected yet"@.len() == 17);
    assert("not connected yet"@[12] == 'd');
    assert("no connection"@.len() == 13);
    assert("no connection"@[12] == 'n');
    assert("no network connection"@.len() == 21);
    assert("no network connection"@[12] == 'o');
    assert("look for the connection dialog"@.len() == 30);
    assert("look for the connection dialog"@[12] == ' ');
    assert("could not open the socket"@.len() == 25);
    assert("could not open the socket"@[12] == 'e');
    assert("could not reach the server"@.len() == 26);
    assert("could not reach the server"@[12] == 'a');
    assert("the server did not answer"@.len() == 25);
    assert("the server did not answer"@[12] == 'i');
    assert("could not switch server"@.len() == 23);
    assert("could not switch server"@[12] == 'i');
    assert("the server refused the request several times"@.len() == 44);
    assert("the server refused the request several times"@[12] == 'e');
    assert("could not resend the request"@.len() == 28);
    assert("could not resend the request"@[12] == 's');
    assert("the phone's clock is badly wrong"@.len() == 32);
    assert("the phone's clock is badly wrong"@[12] == 'c');
    assert("could not resend after adjusting the clock"@.len() == 42);
    assert("could not resend after adjusting the clock"@[12] == 's');
    assert("unreadable response"@.len() == 19);
    assert("unreadable response"@[12] == 'e');
    assert("could not decrypt"@.len() == 17);
    assert("could not decrypt"@[12] == 'c');
    assert("could not compute the key"@.len() == 25);
    assert("could not compute the key"@[12] == 'm');
    assert("handshake: unreadable TL"@.len() == 24);
    assert("handshake: unreadable TL"@[12] == 'n');
    assert("handshake: could not factor pq"@.len() == 30);
    assert("handshake: could not factor pq"@[12] == 'o');
    assert("handshake: invalid DH parameters"@.len() == 32);
    assert("handshake: invalid DH parameters"@[12] == 'n');
    assert("handshake: nonce mismatch"@.len() == 25);
    assert("handshake: nonce mismatch"@[12] == 'o');
    assert("handshake: key generation failed"@.len() == 32);
    assert("handshake: key generation failed"@[12] == 'e');
    assert("handshake: keys do not match"@.len() == 28);
    assert("handshake: keys do not match"@[12] == 'e');
}

proof fn failures_differ_pt(i: int, j: int)
    requires
        0 <= i < j < all_failures().len(),
    ensures
        all_failures()[i].1@ != all_failures()[j].1@,
{
    reveal_strlit("ainda não conectado");
    reveal_strlit("sem conexão");
    reveal_strlit("sem conexão de rede");
    reveal_strlit("procure o diálogo de conexão");
    reveal_strlit("não consegui abrir o socket");
    reveal_strlit("não consegui alcançar o servidor");
    reveal_strlit("o servidor não respondeu");
    reveal_strlit("não consegui mudar de servidor");
    reveal_strlit("o servidor recusou o pedido várias vezes");
    reveal_strlit("não consegui reenviar o pedido");
    reveal_strlit("o relógio do telefone está muito errado");
    reveal_strlit("não consegui reenviar depois de ajustar o relógio");
    reveal_strlit("resposta ilegível");
    reveal_strlit("não consegui decifrar");
    reveal_strlit("não consegui calcular a chave");
    reveal_strlit("handshake: TL ilegível");
    reveal_strlit("handshake: não fatorei o pq");
    reveal_strlit("handshake: parâmetros DH inválidos");
    reveal_strlit("handshake: nonce não confere");
    reveal_strlit("handshake: geração da chave falhou");
    reveal_strlit("handshake: as chaves não batem");
    assert("ainda não conectado"@.len() == 19);
    assert("ainda não conectado"@[8] == 'o');
    assert("sem conexão"@.len() == 11);
    assert("sem conexão"@[0] == 's');
    assert("sem conexão de rede"@.len() == 19);
    assert("sem conexão de rede"@[8] == 'x');
    assert("procure o diálogo de conexão"@.len() == 28);
    assert("procure o diálogo de conexão"@[17] == ' ');
    assert("não consegui abrir o socket"@.len() == 27);
    assert("não consegui abrir o socket"@[16] == 'i');
    assert("não consegui alcançar o servidor"@.len() == 32);
    assert("não consegui alcançar o servidor"@[21] == ' ');
    assert("o servidor não respondeu"@.len() == 24);
    assert("o servidor não respondeu"@[13] == 'o');
    assert("não consegui mudar de servidor"@.len() == 30);
    assert("não consegui mudar de servidor"@[19] == 'd');
    assert("o servidor recusou o pedido várias vezes"@.len() == 40);
    assert("o servidor recusou o pedido várias vezes"@[29] == 'á');
    assert("não consegui reenviar o pedido"@.len() == 30);
    assert("não consegui reenviar o pedido"@[19] == 'a');
    assert("o relógio do telefone está muito errado"@.len() == 39);
    assert("o relógio do telefone está muito errado"@[28] == 'u');
    assert("não consegui reenviar depois de ajustar o relógio"@.len() == 49);
    assert("não consegui reenviar depois de ajustar o relógio"@[38] == 'r');
    assert("resposta ilegível"@.len() == 17);
    assert("resposta ilegível"@[6] == 't');
    assert("não consegui decifrar"@.len() == 21);
    assert("não consegui decifrar"@[10] == 'u');
    assert("não consegui calcular a chave"@.len() == 29);
    assert("não consegui calcular a chave"@[18] == 'l');
    assert("handshake: TL ilegível"@.len() == 22);
    assert("handshake: TL ilegível"@[11] == 'T');
    assert("handshake: não fatorei o pq"@.len() == 27);
    assert("handshake: não fatorei o pq"@[16] == 'a');
    assert("handshake: parâmetros DH inválidos"@.len() == 34);
    assert("handshake: parâmetros DH inválidos"@[23] == 'H');
    assert("handshake: nonce não confere"@.len() == 28);
    assert("handshake: nonce não confere"@[17] == 'n');
    assert("handshake: geração da chave falhou"@.len() == 34);
    assert("handshake: geração da chave falhou"@[23] == 'h');
    assert("handshake: as chaves não batem"@.len() == 30);
    assert("handshake: as chaves não batem"@[19] == 's');
}

/// No two failures read alike, in either language: which one shows says how far it got.
pub proof fn every_failure_says_a_different_thing(i: int, j: int, lang: Lang)
    requires
        0 <= i < j < all_failures().len(),
    ensures
        wording(lang, all_failures()[i].0, all_failures()[i].1)@ != wording(
            lang,
            all_failures()[j].0,
            all_failures()[j].1,
        )@,
{
    failures_differ_en(i, j);
    failures_differ_pt(i, j);
}

} // verus!
